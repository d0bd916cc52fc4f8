use env_switcher::Config;
use env_switcher::app_state::{Effect, EnvSwitcherApp, FolderTarget, Message, PendingSave, StatusLevel, Tab};
use env_switcher::app_state::{current_env_label, version_label, Dialog};

fn app() -> EnvSwitcherApp {
    let mut config = Config::default();
    config.add_node_version("18".to_string(), "C:\\node\\18".to_string());
    config.add_path_mapping("C:\\p".to_string(), Some("18".to_string()), None);
    EnvSwitcherApp::new(config, "C:\\cfg.json".to_string(), false, "C:\\p\\src".to_string())
}

#[test]
fn new_lists_config_and_current_match() {
    let a = app();
    assert_eq!(a.node_versions.len(), 1);
    assert_eq!(a.node_versions[0].path, "C:\\node\\18");
    assert_eq!(a.path_mappings[0].java_version, "");
    assert_eq!(a.current_status.matched_path, Some("C:\\p".to_string()));
    assert!(a.current_status.is_inherited);
    assert_eq!(a.active_tab, Tab::Overview);
}

#[test]
fn add_node_version_needs_both_inputs() {
    let mut a = app();
    let e = a.update(Message::NodeVersionInputChanged("20".to_string()));
    assert!(matches!(e, Effect::Nothing));
    let e = a.update(Message::AddNodeVersion);
    assert!(matches!(e, Effect::Nothing));
    let s = a.status_message.clone().unwrap();
    assert_eq!(s.text, "版本号和路径不能为空");
    assert_eq!(s.level, StatusLevel::Warning);
}

#[test]
fn add_node_version_saves_then_lists() {
    let mut a = app();
    a.update(Message::OpenAddNodeDialog);
    a.update(Message::NodeVersionInputChanged("20".to_string()));
    a.update(Message::NodePathInputChanged("C:\\node\\20".to_string()));
    let e = a.update(Message::AddNodeVersion);
    assert!(a.config.node_versions.contains_key("20"));
    match e {
        Effect::SaveConfig(p) => a.save_finished(p, Ok(())),
        _ => panic!("expected a save"),
    }
    assert_eq!(a.node_versions.len(), 2);
    assert_eq!(a.node_versions[1].version, "20");
    assert!(!a.show_add_node_dialog);
    assert_eq!(a.new_node_version, "");
    assert_eq!(a.status_message.clone().unwrap().text, "已添加 Node.js 20");
}

#[test]
fn failed_save_only_reports() {
    let mut a = app();
    a.update(Message::NodeVersionInputChanged("20".to_string()));
    a.update(Message::NodePathInputChanged("C:\\node\\20".to_string()));
    a.update(Message::AddNodeVersion);
    a.save_finished(PendingSave::AddNode("20".to_string()), Err("disk full".to_string()));
    assert_eq!(a.node_versions.len(), 1);
    let s = a.status_message.clone().unwrap();
    assert_eq!(s.text, "保存配置失败：disk full");
    assert_eq!(s.level, StatusLevel::Error);
}

#[test]
fn add_mapping_message_loses_path() {
    let mut a = app();
    a.update(Message::MappingPathInputChanged("D:\\q".to_string()));
    a.update(Message::JavaVersionInputForMappingChanged("17".to_string()));
    let e = a.update(Message::AddPathMapping);
    assert_eq!(a.config.path_mappings.len(), 2);
    assert_eq!(a.config.path_mappings[1].node_version, None);
    assert_eq!(a.config.path_mappings[1].java_version, Some("17".to_string()));
    match e {
        Effect::SaveConfig(p) => a.save_finished(p, Ok(())),
        _ => panic!("expected a save"),
    }
    assert_eq!(a.path_mappings[1].path, "D:\\q");
    assert_eq!(a.status_message.clone().unwrap().text, "已添加路径映射：");
}

#[test]
fn remove_mapping_and_hook_and_folders() {
    let mut a = app();
    let e = a.update(Message::RemovePathMapping("C:\\p".to_string()));
    assert!(a.path_mappings.is_empty());
    assert!(a.config.path_mappings.is_empty());
    if let Effect::SaveConfig(p) = e {
        a.save_finished(p, Ok(()));
    }
    assert_eq!(a.status_message.clone().unwrap().text, "已移除路径映射：C:\\p");
    assert!(matches!(a.update(Message::InstallHook), Effect::InstallHook));
    a.hook_install_finished(Ok(true));
    assert!(a.hook_installed);
    assert_eq!(a.status_message.clone().unwrap().text, "Hook 已安装，请重启 PowerShell 生效");
    a.hook_uninstall_finished(Err("denied".to_string()));
    assert!(a.hook_installed);
    assert_eq!(a.status_message.clone().unwrap().text, "卸载 Hook 失败：denied");
    assert!(matches!(a.update(Message::BrowseJavaPath), Effect::BrowseFolder(FolderTarget::JavaPath)));
    a.folder_chosen(FolderTarget::JavaPath, Some("C:\\jdk".to_string()));
    assert_eq!(a.new_java_path, "C:\\jdk");
    a.folder_chosen(FolderTarget::JavaPath, None);
    assert_eq!(a.new_java_path, "C:\\jdk");
    a.config_folder_opened(false);
    assert_eq!(a.status_message.clone().unwrap().level, StatusLevel::Warning);
    a.config_refreshed(Ok(Config::default()));
    assert!(a.node_versions.is_empty());
    assert_eq!(a.status_message.clone().unwrap().text, "配置已刷新");
}

#[test]
fn tabs_and_labels() {
    let tabs = Tab::all();
    assert_eq!(tabs.len(), 4);
    assert_eq!(tabs[3].label(), "路径映射");
    let mut a = app();
    a.update(Message::TabSelected(Tab::Java));
    assert_eq!(a.active_tab, Tab::Java);
}

#[test]
fn dialog_on_top_and_labels() {
    let mut a = app();
    assert_eq!(a.open_dialog(), None);
    a.update(Message::OpenAddMappingDialog);
    assert_eq!(a.open_dialog(), Some(Dialog::AddMapping));
    a.update(Message::OpenAddJavaDialog);
    assert_eq!(a.open_dialog(), Some(Dialog::AddJava));
    a.update(Message::OpenAddNodeDialog);
    assert_eq!(a.open_dialog(), Some(Dialog::AddNode));
    assert_eq!(current_env_label("Node", &Some("18.0.0".to_string())), "Node: v18.0.0");
    assert_eq!(current_env_label("Java", &None), "Java: 未配置");
    assert_eq!(version_label("17"), "17");
    assert_eq!(version_label(""), "未配置");
}
