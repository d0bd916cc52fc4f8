//! The state of the Env Switcher window and how it reacts to the user.
//!
//! `EnvSwitcherApp::update` decides what a message does to the state and
//! which outside work it asks for (saving the configuration, installing the
//! hook, picking a folder, ...). Whoever performs that work reports the
//! outcome back through the `*_finished` / `*_chosen` / `*_refreshed`
//! methods, which settle the state and the status line.

use vstd::prelude::*;
use crate::config::{
    mappings_view, opt_view, without_path, Config, ConfigView, PathMappingView,
    VersionConfigView,
};
use crate::matcher::{match_of, PathMatcher};

verus! {

broadcast use vstd::string::group_string_axioms;

// ---------------------------------------------------------------------------
// Plain data of the window
// ---------------------------------------------------------------------------

/// A registered version as listed in the window.
#[derive(Debug)]
pub struct VersionEntry {
    pub version: String,
    pub path: String,
}

/// What a `VersionEntry` holds.
pub struct VersionEntryView {
    pub version: Seq<char>,
    pub path: Seq<char>,
}

impl View for VersionEntry {
    type V = VersionEntryView;

    open spec fn view(&self) -> VersionEntryView {
        VersionEntryView { version: self.version@, path: self.path@ }
    }
}

impl Clone for VersionEntry {
    fn clone(&self) -> (r: Self)
        ensures
            r@ == self@,
    {
        VersionEntry { version: self.version.clone(), path: self.path.clone() }
    }
}

impl Default for VersionEntry {
    fn default() -> (r: Self)
        ensures
            r@ == (VersionEntryView { version: Seq::empty(), path: Seq::empty() }),
    {
        VersionEntry { version: String::new(), path: String::new() }
    }
}

/// A path mapping as listed in the window (an empty version means none).
#[derive(Debug)]
pub struct PathMappingEntry {
    pub path: String,
    pub node_version: String,
    pub java_version: String,
}

/// What a `PathMappingEntry` holds.
pub struct PathMappingEntryView {
    pub path: Seq<char>,
    pub node_version: Seq<char>,
    pub java_version: Seq<char>,
}

impl View for PathMappingEntry {
    type V = PathMappingEntryView;

    open spec fn view(&self) -> PathMappingEntryView {
        PathMappingEntryView {
            path: self.path@,
            node_version: self.node_version@,
            java_version: self.java_version@,
        }
    }
}

impl Clone for PathMappingEntry {
    fn clone(&self) -> (r: Self)
        ensures
            r@ == self@,
    {
        PathMappingEntry {
            path: self.path.clone(),
            node_version: self.node_version.clone(),
            java_version: self.java_version.clone(),
        }
    }
}

impl Default for PathMappingEntry {
    fn default() -> (r: Self)
        ensures
            r@ == (PathMappingEntryView {
                path: Seq::empty(),
                node_version: Seq::empty(),
                java_version: Seq::empty(),
            }),
    {
        PathMappingEntry {
            path: String::new(),
            node_version: String::new(),
            java_version: String::new(),
        }
    }
}

/// How a status message is shown.
#[derive(Clone, Copy, PartialEq, Eq, Structural, Debug)]
pub enum StatusLevel {
    Info,
    Success,
    Warning,
    Error,
}

impl Default for StatusLevel {
    fn default() -> (r: Self)
        ensures
            r == StatusLevel::Info,
    {
        StatusLevel::Info
    }
}

/// The message in the status bar.
#[derive(Debug)]
pub struct StatusMessage {
    pub text: String,
    pub level: StatusLevel,
}

/// What a `StatusMessage` holds.
pub struct StatusMessageView {
    pub text: Seq<char>,
    pub level: StatusLevel,
}

impl View for StatusMessage {
    type V = StatusMessageView;

    open spec fn view(&self) -> StatusMessageView {
        StatusMessageView { text: self.text@, level: self.level }
    }
}

impl Clone for StatusMessage {
    fn clone(&self) -> (r: Self)
        ensures
            r@ == self@,
    {
        StatusMessage { text: self.text.clone(), level: self.level }
    }
}

/// The pages of the window.
#[derive(Clone, Copy, PartialEq, Eq, Structural, Debug)]
pub enum Tab {
    Overview,
    Node,
    Java,
    Paths,
}

impl Default for Tab {
    fn default() -> (r: Self)
        ensures
            r == Tab::Overview,
    {
        Tab::Overview
    }
}

impl Tab {
    /// All pages, in the order of the navigation bar.
    pub fn all() -> (r: [Tab; 4])
        ensures
            r@ == seq![Tab::Overview, Tab::Node, Tab::Java, Tab::Paths],
    {
        let r = [Tab::Overview, Tab::Node, Tab::Java, Tab::Paths];
        assert(r@ =~= seq![Tab::Overview, Tab::Node, Tab::Java, Tab::Paths]);
        r
    }

    /// The caption of the page.
    pub fn label(&self) -> (r: &'static str)
        ensures
            r@ == tab_label(*self),
    {
        match self {
            Tab::Overview => "概览",
            Tab::Node => "Node.js",
            Tab::Java => "Java",
            Tab::Paths => "路径映射",
        }
    }
}

/// The caption of each page.
pub open spec fn tab_label(t: Tab) -> Seq<char> {
    match t {
        Tab::Overview => "概览"@,
        Tab::Node => "Node.js"@,
        Tab::Java => "Java"@,
        Tab::Paths => "路径映射"@,
    }
}

/// How the current directory matched.
#[derive(Debug)]
pub struct PathMatchStatus {
    pub matched_path: Option<String>,
    pub node_version: Option<String>,
    pub java_version: Option<String>,
    pub is_inherited: bool,
}

/// What a `PathMatchStatus` holds.
pub struct PathMatchStatusView {
    pub matched_path: Option<Seq<char>>,
    pub node_version: Option<Seq<char>>,
    pub java_version: Option<Seq<char>>,
    pub is_inherited: bool,
}

impl View for PathMatchStatus {
    type V = PathMatchStatusView;

    open spec fn view(&self) -> PathMatchStatusView {
        PathMatchStatusView {
            matched_path: opt_view(self.matched_path),
            node_version: opt_view(self.node_version),
            java_version: opt_view(self.java_version),
            is_inherited: self.is_inherited,
        }
    }
}

/// What the user did.
#[derive(Debug, Clone)]
pub enum Message {
    TabSelected(Tab),
    InstallHook,
    UninstallHook,
    AddNodeVersion,
    RemoveNodeVersion(String),
    OpenAddNodeDialog,
    CloseAddNodeDialog,
    NodeVersionInputChanged(String),
    NodePathInputChanged(String),
    BrowseNodePath,
    NodeVersionInputForMappingChanged(String),
    AddJavaVersion,
    RemoveJavaVersion(String),
    OpenAddJavaDialog,
    CloseAddJavaDialog,
    JavaVersionInputChanged(String),
    JavaPathInputChanged(String),
    BrowseJavaPath,
    JavaVersionInputForMappingChanged(String),
    AddPathMapping,
    RemovePathMapping(String),
    OpenAddMappingDialog,
    CloseAddMappingDialog,
    MappingPathInputChanged(String),
    BrowseMappingPath,
    RefreshConfig,
    OpenConfigFolder,
}

/// The input field a folder is picked for.
#[derive(Clone, Copy, PartialEq, Eq, Structural, Debug)]
pub enum FolderTarget {
    NodePath,
    JavaPath,
    MappingPath,
}

/// The change to the configuration that a save is for.
#[derive(Debug)]
pub enum PendingSave {
    AddNode(String),
    RemoveNode(String),
    AddJava(String),
    RemoveJava(String),
    AddMapping,
    RemoveMapping(String),
}

/// What a `PendingSave` holds.
pub enum PendingSaveView {
    AddNode(Seq<char>),
    RemoveNode(Seq<char>),
    AddJava(Seq<char>),
    RemoveJava(Seq<char>),
    AddMapping,
    RemoveMapping(Seq<char>),
}

impl View for PendingSave {
    type V = PendingSaveView;

    open spec fn view(&self) -> PendingSaveView {
        match self {
            PendingSave::AddNode(v) => PendingSaveView::AddNode(v@),
            PendingSave::RemoveNode(v) => PendingSaveView::RemoveNode(v@),
            PendingSave::AddJava(v) => PendingSaveView::AddJava(v@),
            PendingSave::RemoveJava(v) => PendingSaveView::RemoveJava(v@),
            PendingSave::AddMapping => PendingSaveView::AddMapping,
            PendingSave::RemoveMapping(p) => PendingSaveView::RemoveMapping(p@),
        }
    }
}

/// The outside work that a message asks for.
#[derive(Debug)]
pub enum Effect {
    /// Nothing to do.
    Nothing,
    /// Install the hook, then report to `hook_install_finished`.
    InstallHook,
    /// Uninstall the hook, then report to `hook_uninstall_finished`.
    UninstallHook,
    /// Save the configuration, then report to `save_finished`.
    SaveConfig(PendingSave),
    /// Let the user pick a folder, then report to `folder_chosen`.
    BrowseFolder(FolderTarget),
    /// Load the configuration again, then report to `config_refreshed`.
    RefreshConfig,
    /// Show the configuration file if it exists, then report to
    /// `config_folder_opened`.
    OpenConfigFolder,
}

/// What an `Effect` holds.
pub enum EffectView {
    Nothing,
    InstallHook,
    UninstallHook,
    SaveConfig(PendingSaveView),
    BrowseFolder(FolderTarget),
    RefreshConfig,
    OpenConfigFolder,
}

impl View for Effect {
    type V = EffectView;

    open spec fn view(&self) -> EffectView {
        match self {
            Effect::Nothing => EffectView::Nothing,
            Effect::InstallHook => EffectView::InstallHook,
            Effect::UninstallHook => EffectView::UninstallHook,
            Effect::SaveConfig(p) => EffectView::SaveConfig(p@),
            Effect::BrowseFolder(t) => EffectView::BrowseFolder(*t),
            Effect::RefreshConfig => EffectView::RefreshConfig,
            Effect::OpenConfigFolder => EffectView::OpenConfigFolder,
        }
    }
}

// ---------------------------------------------------------------------------
// The window state
// ---------------------------------------------------------------------------

/// The state of the Env Switcher window.
#[derive(Debug)]
pub struct EnvSwitcherApp {
    pub config: Config,
    pub config_path: String,
    pub status_message: Option<StatusMessage>,
    pub hook_installed: bool,
    pub current_path: String,
    pub current_status: PathMatchStatus,
    pub node_versions: Vec<VersionEntry>,
    pub new_node_version: String,
    pub new_node_path: String,
    pub selected_node_for_mapping: String,
    pub java_versions: Vec<VersionEntry>,
    pub new_java_version: String,
    pub new_java_path: String,
    pub selected_java_for_mapping: String,
    pub path_mappings: Vec<PathMappingEntry>,
    pub new_mapping_path: String,
    pub active_tab: Tab,
    pub show_add_node_dialog: bool,
    pub show_add_java_dialog: bool,
    pub show_add_mapping_dialog: bool,
}

/// What an `EnvSwitcherApp` holds.
pub struct AppView {
    pub config: ConfigView,
    pub config_path: Seq<char>,
    pub status_message: Option<StatusMessageView>,
    pub hook_installed: bool,
    pub current_path: Seq<char>,
    pub current_status: PathMatchStatusView,
    pub node_versions: Seq<VersionEntryView>,
    pub new_node_version: Seq<char>,
    pub new_node_path: Seq<char>,
    pub selected_node_for_mapping: Seq<char>,
    pub java_versions: Seq<VersionEntryView>,
    pub new_java_version: Seq<char>,
    pub new_java_path: Seq<char>,
    pub selected_java_for_mapping: Seq<char>,
    pub path_mappings: Seq<PathMappingEntryView>,
    pub new_mapping_path: Seq<char>,
    pub active_tab: Tab,
    pub show_add_node_dialog: bool,
    pub show_add_java_dialog: bool,
    pub show_add_mapping_dialog: bool,
}

/// The view of an optional status message.
pub open spec fn status_view(s: Option<StatusMessage>) -> Option<StatusMessageView> {
    match s {
        Some(m) => Some(m@),
        None => None,
    }
}

impl View for EnvSwitcherApp {
    type V = AppView;

    open spec fn view(&self) -> AppView {
        AppView {
            config: self.config@,
            config_path: self.config_path@,
            status_message: status_view(self.status_message),
            hook_installed: self.hook_installed,
            current_path: self.current_path@,
            current_status: self.current_status@,
            node_versions: self.node_versions@.map_values(|e: VersionEntry| e@),
            new_node_version: self.new_node_version@,
            new_node_path: self.new_node_path@,
            selected_node_for_mapping: self.selected_node_for_mapping@,
            java_versions: self.java_versions@.map_values(|e: VersionEntry| e@),
            new_java_version: self.new_java_version@,
            new_java_path: self.new_java_path@,
            selected_java_for_mapping: self.selected_java_for_mapping@,
            path_mappings: self.path_mappings@.map_values(|e: PathMappingEntry| e@),
            new_mapping_path: self.new_mapping_path@,
            active_tab: self.active_tab,
            show_add_node_dialog: self.show_add_node_dialog,
            show_add_java_dialog: self.show_add_java_dialog,
            show_add_mapping_dialog: self.show_add_mapping_dialog,
        }
    }
}

// ---------------------------------------------------------------------------
// Specification of the transitions
// ---------------------------------------------------------------------------

/// The listed entries of a version table, in its order.
pub open spec fn version_entries(p: Seq<(Seq<char>, VersionConfigView)>) -> Seq<VersionEntryView> {
    p.map_values(|e: (Seq<char>, VersionConfigView)| VersionEntryView { version: e.0, path: e.1.path })
}

/// An optional version as the list shows it: empty when there is none.
pub open spec fn or_empty(v: Option<Seq<char>>) -> Seq<char> {
    match v {
        Some(s) => s,
        None => Seq::empty(),
    }
}

/// A version input as a mapping takes it: none when the input is empty.
pub open spec fn none_if_empty(v: Seq<char>) -> Option<Seq<char>> {
    if v.len() == 0 {
        None
    } else {
        Some(v)
    }
}

/// The listed entries of the path mappings, in their order.
pub open spec fn mapping_entries(ms: Seq<PathMappingView>) -> Seq<PathMappingEntryView> {
    ms.map_values(
        |m: PathMappingView|
            PathMappingEntryView {
                path: m.path,
                node_version: or_empty(m.node_version),
                java_version: or_empty(m.java_version),
            },
    )
}

/// The listed versions other than `v`, in their order.
pub open spec fn without_version(es: Seq<VersionEntryView>, v: Seq<char>) -> Seq<VersionEntryView>
    decreases es.len(),
{
    if es.len() == 0 {
        Seq::empty()
    } else {
        let rest = without_version(es.drop_last(), v);
        if es.last().version == v {
            rest
        } else {
            rest.push(es.last())
        }
    }
}

/// The listed mappings of paths other than `p`, in their order.
pub open spec fn without_entry_path(es: Seq<PathMappingEntryView>, p: Seq<char>) -> Seq<
    PathMappingEntryView,
>
    decreases es.len(),
{
    if es.len() == 0 {
        Seq::empty()
    } else {
        let rest = without_entry_path(es.drop_last(), p);
        if es.last().path == p {
            rest
        } else {
            rest.push(es.last())
        }
    }
}

/// The state with a status message set.
pub open spec fn with_status(s: AppView, text: Seq<char>, level: StatusLevel) -> AppView {
    AppView { status_message: Some(StatusMessageView { text, level }), ..s }
}

/// A version table with `version` registered at `path`.
pub open spec fn registered(
    t: Map<Seq<char>, VersionConfigView>,
    version: Seq<char>,
    path: Seq<char>,
) -> Map<Seq<char>, VersionConfigView> {
    t.insert(version, VersionConfigView { path, version, download_url: None })
}

/// What a message does to the state, and the outside work it asks for.
pub open spec fn step(s: AppView, m: Message) -> (AppView, EffectView) {
    match m {
        Message::TabSelected(t) => (AppView { active_tab: t, ..s }, EffectView::Nothing),
        Message::InstallHook => (s, EffectView::InstallHook),
        Message::UninstallHook => (s, EffectView::UninstallHook),
        Message::OpenAddNodeDialog => (AppView { show_add_node_dialog: true, ..s }, EffectView::Nothing),
        Message::CloseAddNodeDialog => (
            AppView {
                show_add_node_dialog: false,
                new_node_version: Seq::empty(),
                new_node_path: Seq::empty(),
                ..s
            },
            EffectView::Nothing,
        ),
        Message::NodeVersionInputChanged(v) => (AppView { new_node_version: v@, ..s }, EffectView::Nothing),
        Message::NodePathInputChanged(v) => (AppView { new_node_path: v@, ..s }, EffectView::Nothing),
        Message::BrowseNodePath => (s, EffectView::BrowseFolder(FolderTarget::NodePath)),
        Message::AddNodeVersion => if s.new_node_version.len() == 0 || s.new_node_path.len() == 0 {
            (with_status(s, "版本号和路径不能为空"@, StatusLevel::Warning), EffectView::Nothing)
        } else {
            (
                AppView {
                    config: ConfigView {
                        node_versions: registered(
                            s.config.node_versions,
                            s.new_node_version,
                            s.new_node_path,
                        ),
                        ..s.config
                    },
                    ..s
                },
                EffectView::SaveConfig(PendingSaveView::AddNode(s.new_node_version)),
            )
        },
        Message::RemoveNodeVersion(v) => (
            AppView {
                config: ConfigView { node_versions: s.config.node_versions.remove(v@), ..s.config },
                node_versions: without_version(s.node_versions, v@),
                ..s
            },
            EffectView::SaveConfig(PendingSaveView::RemoveNode(v@)),
        ),
        Message::NodeVersionInputForMappingChanged(v) => (
            AppView { selected_node_for_mapping: v@, ..s },
            EffectView::Nothing,
        ),
        Message::OpenAddJavaDialog => (AppView { show_add_java_dialog: true, ..s }, EffectView::Nothing),
        Message::CloseAddJavaDialog => (
            AppView {
                show_add_java_dialog: false,
                new_java_version: Seq::empty(),
                new_java_path: Seq::empty(),
                ..s
            },
            EffectView::Nothing,
        ),
        Message::JavaVersionInputChanged(v) => (AppView { new_java_version: v@, ..s }, EffectView::Nothing),
        Message::JavaPathInputChanged(v) => (AppView { new_java_path: v@, ..s }, EffectView::Nothing),
        Message::BrowseJavaPath => (s, EffectView::BrowseFolder(FolderTarget::JavaPath)),
        Message::JavaVersionInputForMappingChanged(v) => (
            AppView { selected_java_for_mapping: v@, ..s },
            EffectView::Nothing,
        ),
        Message::AddJavaVersion => if s.new_java_version.len() == 0 || s.new_java_path.len() == 0 {
            (with_status(s, "版本号和路径不能为空"@, StatusLevel::Warning), EffectView::Nothing)
        } else {
            (
                AppView {
                    config: ConfigView {
                        java_versions: registered(
                            s.config.java_versions,
                            s.new_java_version,
                            s.new_java_path,
                        ),
                        ..s.config
                    },
                    ..s
                },
                EffectView::SaveConfig(PendingSaveView::AddJava(s.new_java_version)),
            )
        },
        Message::RemoveJavaVersion(v) => (
            AppView {
                config: ConfigView { java_versions: s.config.java_versions.remove(v@), ..s.config },
                java_versions: without_version(s.java_versions, v@),
                ..s
            },
            EffectView::SaveConfig(PendingSaveView::RemoveJava(v@)),
        ),
        Message::OpenAddMappingDialog => (
            AppView { show_add_mapping_dialog: true, ..s },
            EffectView::Nothing,
        ),
        Message::CloseAddMappingDialog => (
            AppView {
                show_add_mapping_dialog: false,
                new_mapping_path: Seq::empty(),
                selected_node_for_mapping: Seq::empty(),
                selected_java_for_mapping: Seq::empty(),
                ..s
            },
            EffectView::Nothing,
        ),
        Message::MappingPathInputChanged(v) => (AppView { new_mapping_path: v@, ..s }, EffectView::Nothing),
        Message::BrowseMappingPath => (s, EffectView::BrowseFolder(FolderTarget::MappingPath)),
        Message::AddPathMapping => if s.new_mapping_path.len() == 0 {
            (with_status(s, "项目路径不能为空"@, StatusLevel::Warning), EffectView::Nothing)
        } else {
            (
                AppView {
                    config: ConfigView {
                        path_mappings: without_path(s.config.path_mappings, s.new_mapping_path).push(
                            PathMappingView {
                                path: s.new_mapping_path,
                                node_version: none_if_empty(s.selected_node_for_mapping),
                                java_version: none_if_empty(s.selected_java_for_mapping),
                            },
                        ),
                        ..s.config
                    },
                    ..s
                },
                EffectView::SaveConfig(PendingSaveView::AddMapping),
            )
        },
        Message::RemovePathMapping(p) => (
            AppView {
                config: ConfigView {
                    path_mappings: without_path(s.config.path_mappings, p@),
                    ..s.config
                },
                path_mappings: without_entry_path(s.path_mappings, p@),
                ..s
            },
            EffectView::SaveConfig(PendingSaveView::RemoveMapping(p@)),
        ),
        Message::RefreshConfig => (s, EffectView::RefreshConfig),
        Message::OpenConfigFolder => (s, EffectView::OpenConfigFolder),
    }
}

/// The state after a save finished: on failure only the status reports it;
/// on success the list and dialog follow the change and the status says so.
pub open spec fn after_save(s: AppView, p: PendingSaveView, failure: Option<Seq<char>>) -> AppView {
    match failure {
        Some(e) => with_status(s, "保存配置失败："@ + e, StatusLevel::Error),
        None => match p {
            PendingSaveView::AddNode(v) => with_status(
                AppView {
                    node_versions: s.node_versions.push(
                        VersionEntryView { version: v, path: s.new_node_path },
                    ),
                    new_node_version: Seq::empty(),
                    new_node_path: Seq::empty(),
                    show_add_node_dialog: false,
                    ..s
                },
                "已添加 Node.js "@ + v,
                StatusLevel::Success,
            ),
            PendingSaveView::RemoveNode(v) => with_status(
                s,
                "已移除 Node.js "@ + v,
                StatusLevel::Success,
            ),
            PendingSaveView::AddJava(v) => with_status(
                AppView {
                    java_versions: s.java_versions.push(
                        VersionEntryView { version: v, path: s.new_java_path },
                    ),
                    new_java_version: Seq::empty(),
                    new_java_path: Seq::empty(),
                    show_add_java_dialog: false,
                    ..s
                },
                "已添加 Java "@ + v,
                StatusLevel::Success,
            ),
            PendingSaveView::RemoveJava(v) => with_status(
                s,
                "已移除 Java "@ + v,
                StatusLevel::Success,
            ),
            PendingSaveView::AddMapping => with_status(
                AppView {
                    path_mappings: s.path_mappings.push(
                        PathMappingEntryView {
                            path: s.new_mapping_path,
                            node_version: s.selected_node_for_mapping,
                            java_version: s.selected_java_for_mapping,
                        },
                    ),
                    new_mapping_path: Seq::empty(),
                    selected_node_for_mapping: Seq::empty(),
                    selected_java_for_mapping: Seq::empty(),
                    show_add_mapping_dialog: false,
                    ..s
                },
                "已添加路径映射："@,
                StatusLevel::Success,
            ),
            PendingSaveView::RemoveMapping(p) => with_status(
                s,
                "已移除路径映射："@ + p,
                StatusLevel::Success,
            ),
        },
    }
}

/// The status shown for the current directory's match.
pub open spec fn status_of(m: crate::matcher::MatchResultView) -> PathMatchStatusView {
    PathMatchStatusView {
        matched_path: m.matched_path,
        node_version: m.node_version,
        java_version: m.java_version,
        is_inherited: m.is_inherited,
    }
}

/// The failure that a result reports, if any.
pub open spec fn failure_of<T>(r: Result<T, String>) -> Option<Seq<char>> {
    match r {
        Ok(_) => None,
        Err(e) => Some(e@),
    }
}

/// The state after the hook was installed (`Ok` tells whether the profile
/// line was newly added) or failed to install.
pub open spec fn after_install(s: AppView, r: Result<bool, Seq<char>>) -> AppView {
    match r {
        Ok(newly) => if newly {
            with_status(
                AppView { hook_installed: true, ..s },
                "Hook 已安装，请重启 PowerShell 生效"@,
                StatusLevel::Success,
            )
        } else {
            with_status(AppView { hook_installed: true, ..s }, "Hook 已安装"@, StatusLevel::Info)
        },
        Err(e) => with_status(s, "安装 Hook 失败："@ + e, StatusLevel::Error),
    }
}

/// The state after the hook was uninstalled or failed to be.
pub open spec fn after_uninstall(s: AppView, failure: Option<Seq<char>>) -> AppView {
    match failure {
        None => with_status(AppView { hook_installed: false, ..s }, "Hook 已卸载"@, StatusLevel::Success),
        Some(e) => with_status(s, "卸载 Hook 失败："@ + e, StatusLevel::Error),
    }
}

/// The state after a folder was picked for an input (nothing changes when
/// the dialog was cancelled).
pub open spec fn after_folder(s: AppView, target: FolderTarget, folder: Option<Seq<char>>) -> AppView {
    match folder {
        None => s,
        Some(f) => match target {
            FolderTarget::NodePath => AppView { new_node_path: f, ..s },
            FolderTarget::JavaPath => AppView { new_java_path: f, ..s },
            FolderTarget::MappingPath => AppView { new_mapping_path: f, ..s },
        },
    }
}

/// The state after showing the configuration folder was asked for.
pub open spec fn after_open_folder(s: AppView, exists: bool) -> AppView {
    if exists {
        with_status(s, "已打开配置文件夹"@, StatusLevel::Success)
    } else {
        with_status(s, "配置文件不存在"@, StatusLevel::Warning)
    }
}

/// `a` followed by `b`.
fn concat(a: &str, b: &str) -> (r: String)
    ensures
        r@ == a@ + b@,
{
    let mut s = a.to_owned();
    s.append(b);
    s
}

/// The listed entries of a version table.
fn entries_of_table(t: &crate::config::VersionTable) -> (r: Vec<VersionEntry>)
    ensures
        r@.map_values(|e: VersionEntry| e@) == version_entries(t.pairs()),
{
    let es = t.entries();
    let mut r: Vec<VersionEntry> = Vec::new();
    let n = es.len();
    for i in 0..n
        invariant
            n == es@.len(),
            crate::config::entries_view(es@) == t.pairs(),
            r@.map_values(|e: VersionEntry| e@) == version_entries(t.pairs()).take(i as int),
    {
        let e = VersionEntry { version: es[i].0.clone(), path: es[i].1.path.clone() };
        let ghost before = r@.map_values(|e: VersionEntry| e@);
        r.push(e);
        assert(r@.map_values(|e: VersionEntry| e@) =~= before.push(e@));
        assert(version_entries(t.pairs()).take(i + 1) =~= version_entries(t.pairs()).take(
            i as int,
        ).push(e@));
    }
    assert(version_entries(t.pairs()).take(n as int) =~= version_entries(t.pairs()));
    r
}

/// An optional string, or the empty one.
fn unwrap_or_empty(o: &Option<String>) -> (r: String)
    ensures
        r@ == or_empty(opt_view(*o)),
{
    match o {
        Some(s) => s.clone(),
        None => String::new(),
    }
}

/// The listed entries of the path mappings.
fn entries_of_mappings(ms: &Vec<crate::config::PathMapping>) -> (r: Vec<PathMappingEntry>)
    ensures
        r@.map_values(|e: PathMappingEntry| e@) == mapping_entries(mappings_view(ms@)),
{
    let mut r: Vec<PathMappingEntry> = Vec::new();
    let n = ms.len();
    let ghost all = mapping_entries(mappings_view(ms@));
    for i in 0..n
        invariant
            n == ms@.len(),
            all == mapping_entries(mappings_view(ms@)),
            r@.map_values(|e: PathMappingEntry| e@) == all.take(i as int),
    {
        let m = &ms[i];
        let e = PathMappingEntry {
            path: m.path.clone(),
            node_version: unwrap_or_empty(&m.node_version),
            java_version: unwrap_or_empty(&m.java_version),
        };
        let ghost before = r@.map_values(|e: PathMappingEntry| e@);
        r.push(e);
        assert(r@.map_values(|e: PathMappingEntry| e@) =~= before.push(e@));
        assert(all.take(i + 1) =~= all.take(i as int).push(e@));
    }
    assert(all.take(n as int) =~= all);
    r
}

/// Drops the listed versions equal to `v`, keeping the others in order.
fn retain_other_versions(es: &mut Vec<VersionEntry>, v: &str)
    ensures
        final(es)@.map_values(|e: VersionEntry| e@) == without_version(
            old(es)@.map_values(|e: VersionEntry| e@),
            v@,
        ),
{
    let key = v.to_owned();
    let ghost all = es@.map_values(|e: VersionEntry| e@);
    let mut kept: Vec<VersionEntry> = Vec::new();
    let n = es.len();
    for i in 0..n
        invariant
            n == es@.len(),
            key@ == v@,
            all == es@.map_values(|e: VersionEntry| e@),
            kept@.map_values(|e: VersionEntry| e@) == without_version(all.take(i as int), v@),
    {
        let ghost before = kept@.map_values(|e: VersionEntry| e@);
        if !(es[i].version == key) {
            let e = es[i].clone();
            kept.push(e);
            assert(kept@.map_values(|e: VersionEntry| e@) =~= before.push(all[i as int]));
        }
        assert(all.take(i + 1).drop_last() =~= all.take(i as int));
    }
    assert(all.take(n as int) =~= all);
    *es = kept;
}

/// Drops the listed mappings of path `p`, keeping the others in order.
fn retain_other_entry_paths(es: &mut Vec<PathMappingEntry>, p: &str)
    ensures
        final(es)@.map_values(|e: PathMappingEntry| e@) == without_entry_path(
            old(es)@.map_values(|e: PathMappingEntry| e@),
            p@,
        ),
{
    let key = p.to_owned();
    let ghost all = es@.map_values(|e: PathMappingEntry| e@);
    let mut kept: Vec<PathMappingEntry> = Vec::new();
    let n = es.len();
    for i in 0..n
        invariant
            n == es@.len(),
            key@ == p@,
            all == es@.map_values(|e: PathMappingEntry| e@),
            kept@.map_values(|e: PathMappingEntry| e@) == without_entry_path(all.take(i as int), p@),
    {
        let ghost before = kept@.map_values(|e: PathMappingEntry| e@);
        if !(es[i].path == key) {
            let e = es[i].clone();
            kept.push(e);
            assert(kept@.map_values(|e: PathMappingEntry| e@) =~= before.push(all[i as int]));
        }
        assert(all.take(i + 1).drop_last() =~= all.take(i as int));
    }
    assert(all.take(n as int) =~= all);
    *es = kept;
}

impl EnvSwitcherApp {
    /// The window state for a loaded configuration: the lists shown from
    /// it, the hook state, and how the current directory matches.
    pub fn new(config: Config, config_path: String, hook_installed: bool, current_path: String) -> (r: Self)
        ensures
            r@.config == config@,
            r@.config_path == config_path@,
            r@.hook_installed == hook_installed,
            r@.current_path == current_path@,
            r@.current_status == status_of(match_of(config@, current_path@)),
            r@.node_versions == version_entries(config.node_versions.pairs()),
            r@.java_versions == version_entries(config.java_versions.pairs()),
            r@.path_mappings == mapping_entries(config@.path_mappings),
            r@.status_message is None,
            r@.new_node_version.len() == 0,
            r@.new_node_path.len() == 0,
            r@.selected_node_for_mapping.len() == 0,
            r@.new_java_version.len() == 0,
            r@.new_java_path.len() == 0,
            r@.selected_java_for_mapping.len() == 0,
            r@.new_mapping_path.len() == 0,
            r@.active_tab == Tab::Overview,
            !r@.show_add_node_dialog,
            !r@.show_add_java_dialog,
            !r@.show_add_mapping_dialog,
    {
        let node_versions = entries_of_table(&config.node_versions);
        let java_versions = entries_of_table(&config.java_versions);
        let path_mappings = entries_of_mappings(&config.path_mappings);
        let matcher = PathMatcher::new(config.clone());
        let m = matcher.find_match(current_path.as_str());
        let current_status = PathMatchStatus {
            matched_path: m.matched_path,
            node_version: m.node_version,
            java_version: m.java_version,
            is_inherited: m.is_inherited,
        };
        EnvSwitcherApp {
            config,
            config_path,
            status_message: None,
            hook_installed,
            current_path,
            current_status,
            node_versions,
            new_node_version: String::new(),
            new_node_path: String::new(),
            selected_node_for_mapping: String::new(),
            java_versions,
            new_java_version: String::new(),
            new_java_path: String::new(),
            selected_java_for_mapping: String::new(),
            path_mappings,
            new_mapping_path: String::new(),
            active_tab: Tab::Overview,
            show_add_node_dialog: false,
            show_add_java_dialog: false,
            show_add_mapping_dialog: false,
        }
    }

    fn set_status(&mut self, text: String, level: StatusLevel)
        ensures
            final(self)@ == with_status(old(self)@, text@, level),
    {
        self.status_message = Some(StatusMessage { text, level });
    }

    /// What a message does to the state, and the outside work it asks for.
    pub fn update(&mut self, message: Message) -> (r: Effect)
        ensures
            (final(self)@, r@) == step(old(self)@, message),
    {
        let ghost m = message;
        match message {
            Message::TabSelected(tab) => {
                self.active_tab = tab;
                Effect::Nothing
            },
            Message::InstallHook => Effect::InstallHook,
            Message::UninstallHook => Effect::UninstallHook,
            Message::OpenAddNodeDialog => {
                self.show_add_node_dialog = true;
                Effect::Nothing
            },
            Message::CloseAddNodeDialog => {
                self.show_add_node_dialog = false;
                self.new_node_version = String::new();
                self.new_node_path = String::new();
                Effect::Nothing
            },
            Message::NodeVersionInputChanged(value) => {
                self.new_node_version = value;
                Effect::Nothing
            },
            Message::NodePathInputChanged(value) => {
                self.new_node_path = value;
                Effect::Nothing
            },
            Message::BrowseNodePath => Effect::BrowseFolder(FolderTarget::NodePath),
            Message::AddNodeVersion => {
                if self.new_node_version.as_str().is_empty() || self.new_node_path.as_str().is_empty() {
                    self.set_status("版本号和路径不能为空".to_owned(), StatusLevel::Warning);
                    return Effect::Nothing;
                }
                let version = self.new_node_version.clone();
                self.config.add_node_version(version.clone(), self.new_node_path.clone());
                Effect::SaveConfig(PendingSave::AddNode(version))
            },
            Message::RemoveNodeVersion(version) => {
                self.config.node_versions.remove(version.as_str());
                retain_other_versions(&mut self.node_versions, version.as_str());
                Effect::SaveConfig(PendingSave::RemoveNode(version))
            },
            Message::OpenAddJavaDialog => {
                self.show_add_java_dialog = true;
                Effect::Nothing
            },
            Message::CloseAddJavaDialog => {
                self.show_add_java_dialog = false;
                self.new_java_version = String::new();
                self.new_java_path = String::new();
                Effect::Nothing
            },
            Message::JavaVersionInputChanged(value) => {
                self.new_java_version = value;
                Effect::Nothing
            },
            Message::JavaPathInputChanged(value) => {
                self.new_java_path = value;
                Effect::Nothing
            },
            Message::BrowseJavaPath => Effect::BrowseFolder(FolderTarget::JavaPath),
            Message::JavaVersionInputForMappingChanged(value) => {
                self.selected_java_for_mapping = value;
                Effect::Nothing
            },
            Message::AddJavaVersion => {
                if self.new_java_version.as_str().is_empty() || self.new_java_path.as_str().is_empty() {
                    self.set_status("版本号和路径不能为空".to_owned(), StatusLevel::Warning);
                    return Effect::Nothing;
                }
                let version = self.new_java_version.clone();
                self.config.add_java_version(version.clone(), self.new_java_path.clone());
                Effect::SaveConfig(PendingSave::AddJava(version))
            },
            Message::RemoveJavaVersion(version) => {
                self.config.java_versions.remove(version.as_str());
                retain_other_versions(&mut self.java_versions, version.as_str());
                Effect::SaveConfig(PendingSave::RemoveJava(version))
            },
            Message::OpenAddMappingDialog => {
                self.show_add_mapping_dialog = true;
                Effect::Nothing
            },
            Message::CloseAddMappingDialog => {
                self.show_add_mapping_dialog = false;
                self.new_mapping_path = String::new();
                self.selected_node_for_mapping = String::new();
                self.selected_java_for_mapping = String::new();
                Effect::Nothing
            },
            Message::MappingPathInputChanged(value) => {
                self.new_mapping_path = value;
                Effect::Nothing
            },
            Message::BrowseMappingPath => Effect::BrowseFolder(FolderTarget::MappingPath),
            Message::NodeVersionInputForMappingChanged(value) => {
                self.selected_node_for_mapping = value;
                Effect::Nothing
            },
            Message::AddPathMapping => {
                if self.new_mapping_path.as_str().is_empty() {
                    self.set_status("项目路径不能为空".to_owned(), StatusLevel::Warning);
                    return Effect::Nothing;
                }
                let node_ver = if self.selected_node_for_mapping.as_str().is_empty() {
                    None
                } else {
                    Some(self.selected_node_for_mapping.clone())
                };
                let java_ver = if self.selected_java_for_mapping.as_str().is_empty() {
                    None
                } else {
                    Some(self.selected_java_for_mapping.clone())
                };
                self.config.add_path_mapping(self.new_mapping_path.clone(), node_ver, java_ver);
                Effect::SaveConfig(PendingSave::AddMapping)
            },
            Message::RemovePathMapping(path) => {
                self.config.remove_path_mapping(path.as_str());
                retain_other_entry_paths(&mut self.path_mappings, path.as_str());
                Effect::SaveConfig(PendingSave::RemoveMapping(path))
            },
            Message::RefreshConfig => Effect::RefreshConfig,
            Message::OpenConfigFolder => Effect::OpenConfigFolder,
        }
    }

    /// Settles a save asked for by `update`.
    pub fn save_finished(&mut self, pending: PendingSave, result: Result<(), String>)
        ensures
            final(self)@ == after_save(old(self)@, pending@, failure_of(result)),
    {
        let ghost start = self@;
        match result {
            Err(e) => {
                self.set_status(concat("保存配置失败：", e.as_str()), StatusLevel::Error);
            },
            Ok(()) => match pending {
                PendingSave::AddNode(version) => {
                    let e = VersionEntry { version: version.clone(), path: self.new_node_path.clone() };
                    self.node_versions.push(e);
                    assert(self@.node_versions =~= start.node_versions.push(e@));
                    self.new_node_version = String::new();
                    self.new_node_path = String::new();
                    self.show_add_node_dialog = false;
                    self.set_status(concat("已添加 Node.js ", version.as_str()), StatusLevel::Success);
                },
                PendingSave::RemoveNode(version) => {
                    self.set_status(concat("已移除 Node.js ", version.as_str()), StatusLevel::Success);
                },
                PendingSave::AddJava(version) => {
                    let e = VersionEntry { version: version.clone(), path: self.new_java_path.clone() };
                    self.java_versions.push(e);
                    assert(self@.java_versions =~= start.java_versions.push(e@));
                    self.new_java_version = String::new();
                    self.new_java_path = String::new();
                    self.show_add_java_dialog = false;
                    self.set_status(concat("已添加 Java ", version.as_str()), StatusLevel::Success);
                },
                PendingSave::RemoveJava(version) => {
                    self.set_status(concat("已移除 Java ", version.as_str()), StatusLevel::Success);
                },
                PendingSave::AddMapping => {
                    let e = PathMappingEntry {
                        path: self.new_mapping_path.clone(),
                        node_version: self.selected_node_for_mapping.clone(),
                        java_version: self.selected_java_for_mapping.clone(),
                    };
                    self.path_mappings.push(e);
                    assert(self@.path_mappings =~= start.path_mappings.push(e@));
                    self.new_mapping_path = String::new();
                    self.selected_node_for_mapping = String::new();
                    self.selected_java_for_mapping = String::new();
                    self.show_add_mapping_dialog = false;
                    let text = concat("已添加路径映射：", self.new_mapping_path.as_str());
                    assert(text@ =~= "已添加路径映射："@);
                    self.set_status(text, StatusLevel::Success);
                },
                PendingSave::RemoveMapping(path) => {
                    self.set_status(concat("已移除路径映射：", path.as_str()), StatusLevel::Success);
                },
            },
        }
    }

    /// Settles an installation of the hook (`Ok` tells whether the profile
    /// line was newly added).
    pub fn hook_install_finished(&mut self, result: Result<bool, String>)
        ensures
            final(self)@ == after_install(
                old(self)@,
                match result {
                    Ok(b) => Ok(b),
                    Err(e) => Err(e@),
                },
            ),
    {
        match result {
            Ok(newly_installed) => {
                self.hook_installed = true;
                if newly_installed {
                    self.set_status("Hook 已安装，请重启 PowerShell 生效".to_owned(), StatusLevel::Success);
                } else {
                    self.set_status("Hook 已安装".to_owned(), StatusLevel::Info);
                }
            },
            Err(e) => {
                self.set_status(concat("安装 Hook 失败：", e.as_str()), StatusLevel::Error);
            },
        }
    }

    /// Settles an uninstallation of the hook.
    pub fn hook_uninstall_finished(&mut self, result: Result<(), String>)
        ensures
            final(self)@ == after_uninstall(old(self)@, failure_of(result)),
    {
        match result {
            Ok(()) => {
                self.hook_installed = false;
                self.set_status("Hook 已卸载".to_owned(), StatusLevel::Success);
            },
            Err(e) => {
                self.set_status(concat("卸载 Hook 失败：", e.as_str()), StatusLevel::Error);
            },
        }
    }

    /// Settles a folder dialog: the picked folder fills the input.
    pub fn folder_chosen(&mut self, target: FolderTarget, folder: Option<String>)
        ensures
            final(self)@ == after_folder(old(self)@, target, opt_view(folder)),
    {
        if let Some(path) = folder {
            match target {
                FolderTarget::NodePath => self.new_node_path = path,
                FolderTarget::JavaPath => self.new_java_path = path,
                FolderTarget::MappingPath => self.new_mapping_path = path,
            }
        }
    }

    /// Settles a reload of the configuration: the lists are rebuilt from the
    /// loaded one, or the status reports the failure.
    pub fn config_refreshed(&mut self, result: Result<Config, String>)
        ensures
            match result {
                Ok(c) => final(self)@ == with_status(
                    AppView {
                        config: c@,
                        node_versions: version_entries(c.node_versions.pairs()),
                        java_versions: version_entries(c.java_versions.pairs()),
                        path_mappings: mapping_entries(c@.path_mappings),
                        ..old(self)@
                    },
                    "配置已刷新"@,
                    StatusLevel::Success,
                ),
                Err(e) => final(self)@ == with_status(old(self)@, "加载配置失败："@ + e@, StatusLevel::Error),
            },
    {
        match result {
            Ok(config) => {
                self.node_versions = entries_of_table(&config.node_versions);
                self.java_versions = entries_of_table(&config.java_versions);
                self.path_mappings = entries_of_mappings(&config.path_mappings);
                self.config = config;
                self.set_status("配置已刷新".to_owned(), StatusLevel::Success);
            },
            Err(e) => {
                self.set_status(concat("加载配置失败：", e.as_str()), StatusLevel::Error);
            },
        }
    }

    /// Settles a request to show the configuration folder.
    pub fn config_folder_opened(&mut self, exists: bool)
        ensures
            final(self)@ == after_open_folder(old(self)@, exists),
    {
        if exists {
            self.set_status("已打开配置文件夹".to_owned(), StatusLevel::Success);
        } else {
            self.set_status("配置文件不存在".to_owned(), StatusLevel::Warning);
        }
    }
}

// ---------------------------------------------------------------------------
// Laws of the window's edits
// ---------------------------------------------------------------------------

/// Adding a Node.js version from the window registers the typed version at
/// the typed path (when both are given), leaving the other versions, the
/// JDKs and the mappings as they were.
pub proof fn lemma_add_node_registers_typed_version(s: AppView)
    requires
        s.new_node_version.len() > 0,
        s.new_node_path.len() > 0,
    ensures
        ({
            let c = step(s, Message::AddNodeVersion).0.config;
            &&& c.node_versions.contains_key(s.new_node_version)
            &&& c.node_versions[s.new_node_version].path == s.new_node_path
            &&& c.node_versions[s.new_node_version].version == s.new_node_version
            &&& c.node_versions[s.new_node_version].download_url is None
            &&& forall|k: Seq<char>|
                k != s.new_node_version ==> (#[trigger] c.node_versions.contains_key(k)
                    == s.config.node_versions.contains_key(k) && (c.node_versions.contains_key(k)
                    ==> c.node_versions[k] == s.config.node_versions[k]))
            &&& c.java_versions == s.config.java_versions
            &&& c.path_mappings == s.config.path_mappings
        }),
{
}

/// Adding a JDK from the window registers the typed version at the typed
/// path (when both are given), leaving the other JDKs, the Node.js versions
/// and the mappings as they were.
pub proof fn lemma_add_java_registers_typed_version(s: AppView)
    requires
        s.new_java_version.len() > 0,
        s.new_java_path.len() > 0,
    ensures
        ({
            let c = step(s, Message::AddJavaVersion).0.config;
            &&& c.java_versions.contains_key(s.new_java_version)
            &&& c.java_versions[s.new_java_version].path == s.new_java_path
            &&& c.java_versions[s.new_java_version].version == s.new_java_version
            &&& c.java_versions[s.new_java_version].download_url is None
            &&& forall|k: Seq<char>|
                k != s.new_java_version ==> (#[trigger] c.java_versions.contains_key(k)
                    == s.config.java_versions.contains_key(k) && (c.java_versions.contains_key(k)
                    ==> c.java_versions[k] == s.config.java_versions[k]))
            &&& c.node_versions == s.config.node_versions
            &&& c.path_mappings == s.config.path_mappings
        }),
{
}

/// Adding a mapping from the window (with a path given) makes the last
/// mapping the typed path with the versions chosen for the mapping: the
/// chosen Node.js version, or none when none is chosen, and likewise for
/// Java, whatever the dialogs for adding versions hold. No other mapping
/// keeps that path, and the registered versions are untouched.
pub proof fn lemma_add_mapping_uses_chosen_versions(s: AppView)
    requires
        s.new_mapping_path.len() > 0,
    ensures
        ({
            let c = step(s, Message::AddPathMapping).0.config;
            let m = c.path_mappings.last();
            &&& c.path_mappings.len() > 0
            &&& m.path == s.new_mapping_path
            &&& (s.selected_node_for_mapping.len() == 0 ==> m.node_version is None)
            &&& (s.selected_node_for_mapping.len() > 0 ==> m.node_version == Some(
                s.selected_node_for_mapping,
            ))
            &&& (s.selected_java_for_mapping.len() == 0 ==> m.java_version is None)
            &&& (s.selected_java_for_mapping.len() > 0 ==> m.java_version == Some(
                s.selected_java_for_mapping,
            ))
            &&& forall|k: int|
                0 <= k < c.path_mappings.len() - 1 ==> (#[trigger] c.path_mappings[k]).path
                    != s.new_mapping_path
            &&& c.node_versions == s.config.node_versions
            &&& c.java_versions == s.config.java_versions
        }),
{
    let m = PathMappingView {
        path: s.new_mapping_path,
        node_version: none_if_empty(s.selected_node_for_mapping),
        java_version: none_if_empty(s.selected_java_for_mapping),
    };
    crate::config::lemma_add_leaves_one_mapping(s.config.path_mappings, m);
}

/// Removing a JDK from the window unregisters exactly that version.
pub proof fn lemma_remove_java_unregisters_version(s: AppView, v: String)
    ensures
        ({
            let c = step(s, Message::RemoveJavaVersion(v)).0.config;
            &&& !c.java_versions.contains_key(v@)
            &&& forall|k: Seq<char>|
                k != v@ ==> (#[trigger] c.java_versions.contains_key(k)
                    == s.config.java_versions.contains_key(k) && (c.java_versions.contains_key(k)
                    ==> c.java_versions[k] == s.config.java_versions[k]))
            &&& c.node_versions == s.config.node_versions
            &&& c.path_mappings == s.config.path_mappings
        }),
{
}

/// Removing a Node.js version from the window unregisters exactly that
/// version.
pub proof fn lemma_remove_node_unregisters_version(s: AppView, v: String)
    ensures
        ({
            let c = step(s, Message::RemoveNodeVersion(v)).0.config;
            &&& !c.node_versions.contains_key(v@)
            &&& forall|k: Seq<char>|
                k != v@ ==> (#[trigger] c.node_versions.contains_key(k)
                    == s.config.node_versions.contains_key(k) && (c.node_versions.contains_key(k)
                    ==> c.node_versions[k] == s.config.node_versions[k]))
            &&& c.java_versions == s.config.java_versions
            &&& c.path_mappings == s.config.path_mappings
        }),
{
}

/// Removing a mapping from the window leaves no mapping of that path and
/// keeps every mapping of another path; the versions are untouched.
pub proof fn lemma_remove_mapping_drops_only_that_path(s: AppView, p: String)
    ensures
        ({
            let c = step(s, Message::RemovePathMapping(p)).0.config;
            &&& forall|k: int|
                0 <= k < c.path_mappings.len() ==> (#[trigger] c.path_mappings[k]).path != p@
            &&& forall|k: int|
                0 <= k < s.config.path_mappings.len() && (#[trigger] s.config.path_mappings[k]).path
                    != p@ ==> c.path_mappings.contains(s.config.path_mappings[k])
            &&& c.path_mappings.len() <= s.config.path_mappings.len()
            &&& c.node_versions == s.config.node_versions
            &&& c.java_versions == s.config.java_versions
        }),
{
    crate::config::lemma_without_path(s.config.path_mappings, p@);
}

// ---------------------------------------------------------------------------
// What the window shows
// ---------------------------------------------------------------------------

/// A dialog drawn over the window.
#[derive(Clone, Copy, PartialEq, Eq, Structural, Debug)]
pub enum Dialog {
    AddNode,
    AddJava,
    AddMapping,
}

/// The dialog on top: adding a Node.js version before adding a Java
/// version before adding a mapping; none when none is open.
pub open spec fn dialog_shown(s: AppView) -> Option<Dialog> {
    if s.show_add_node_dialog {
        Some(Dialog::AddNode)
    } else if s.show_add_java_dialog {
        Some(Dialog::AddJava)
    } else if s.show_add_mapping_dialog {
        Some(Dialog::AddMapping)
    } else {
        None
    }
}

/// What is shown for a version that is not set.
pub open spec fn unset_label() -> Seq<char> {
    "未配置"@
}

/// The label of the current environment for a tool: `Node: v18.0.0`, or
/// `Node: 未配置` when no version applies.
pub open spec fn env_label(tool: Seq<char>, version: Option<Seq<char>>) -> Seq<char> {
    match version {
        Some(v) => tool + ": v"@ + v,
        None => tool + ": "@ + unset_label(),
    }
}

/// The label of a mapping's version: the version, or `未配置` when the
/// mapping sets none.
pub open spec fn mapping_version_label(version: Seq<char>) -> Seq<char> {
    if version.len() == 0 {
        unset_label()
    } else {
        version
    }
}

impl EnvSwitcherApp {
    /// The dialog to draw over the window, if any.
    pub fn open_dialog(&self) -> (r: Option<Dialog>)
        ensures
            r == dialog_shown(self@),
    {
        if self.show_add_node_dialog {
            Some(Dialog::AddNode)
        } else if self.show_add_java_dialog {
            Some(Dialog::AddJava)
        } else if self.show_add_mapping_dialog {
            Some(Dialog::AddMapping)
        } else {
            None
        }
    }
}

/// The label of the current environment for `tool` and the version that
/// applies, if any.
pub fn current_env_label(tool: &str, version: &Option<String>) -> (r: String)
    ensures
        r@ == env_label(tool@, opt_view(*version)),
{
    proof {
        reveal_strlit(": v");
        reveal_strlit(": ");
        reveal_strlit("未配置");
        reveal_strlit(": 未配置");
    }
    match version {
        Some(v) => {
            let mut s = concat(tool, ": v");
            s.append(v.as_str());
            assert(s@ =~= tool@ + ": v"@ + v@);
            s
        },
        None => {
            let s = concat(tool, ": 未配置");
            assert(": 未配置"@ =~= ": "@ + "未配置"@);
            s
        },
    }
}

/// The label of a mapping's version as listed.
pub fn version_label(version: &str) -> (r: String)
    ensures
        r@ == mapping_version_label(version@),
{
    if version.is_empty() {
        "未配置".to_owned()
    } else {
        version.to_owned()
    }
}

} // verus!
