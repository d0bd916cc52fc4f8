//! Node.js version management: where versions are installed, where their
//! archives come from, and how `node --version` output is read.

use vstd::prelude::*;
use crate::config::opt_view;
use crate::paths::{
    data_dir_base, data_local_dir, has_verbatim_prefix, is_joined, is_plain_name, is_plain_path, is_relative_child,
    is_joined_twice, is_separator, is_suffix_of, join_path, lemma_joined_takes_separator,
    lemma_joined_twice, takes_separator,
};
use crate::text::{
    chars_of, is_prefix_of, starts_with, string_of, trim, trim_start_char, trim_start_matches,
    trim_ws,
};

verus! {

broadcast use vstd::string::group_string_axioms;

/// Node.js version information.
#[derive(Debug)]
pub struct NodeVersion {
    pub version: String,
    pub npm_version: String,
    pub download_url: String,
}

/// Node.js release index (from nodejs.org).
#[derive(Debug)]
pub struct NodeReleaseIndex {
    pub version: String,
    pub files: Vec<String>,
    pub npm: Option<String>,
}

/// The version that `node --version` printed: the output trimmed, without
/// its leading `v`s.
pub open spec fn node_version_of_output(stdout: Seq<char>) -> Seq<char> {
    trim_start_char(trim_ws(stdout), 'v')
}

/// Where a Node.js release archive is downloaded from.
pub open spec fn node_download_url(version: Seq<char>) -> Seq<char> {
    "https://nodejs.org/dist/"@ + version + "/node-"@ + version + "-win-x64.zip"@
}

/// The file name the downloaded archive is saved under.
pub open spec fn node_archive_name(version: Seq<char>) -> Seq<char> {
    "node-"@ + version + ".zip"@
}

/// The folder the archive unpacks to.
pub open spec fn node_extracted_name(version: Seq<char>) -> Seq<char> {
    "node-"@ + version + "-win-x64"@
}

/// Node.js manager.
#[derive(Debug)]
pub struct NodeManager {
    install_dir: String,
}

impl NodeManager {
    /// The installation directory.
    pub closed spec fn dir(&self) -> Seq<char> {
        self.install_dir@
    }

    /// A manager installing into `install_dir`, or into `env-switcher\node`
    /// under the platform's local data directory when none is given.
    pub fn new(install_dir: Option<String>) -> (r: Self)
        ensures
            install_dir matches Some(d) ==> r.dir() == d@,
            install_dir is None ==> is_suffix_of("env-switcher\\node"@, r.dir()),
    {
        match install_dir {
            Some(d) => NodeManager { install_dir: d },
            None => Self::under_data_dir(data_local_dir()),
        }
    }

    /// A manager installing into `env-switcher\node` under `data_dir`
    /// (`C:\ProgramData` when there is none).
    pub fn under_data_dir(data_dir: Option<String>) -> (r: Self)
        ensures
            is_suffix_of("env-switcher\\node"@, r.dir()),
            takes_separator(data_dir_base(opt_view(data_dir))) ==> is_joined(
                r.dir(),
                data_dir_base(opt_view(data_dir)),
                "env-switcher\\node"@,
            ),
    {
        proof {
            reveal_strlit("env-switcher\\node");
            reveal_strlit("C:\\ProgramData");
            assert(is_plain_path("env-switcher\\node"@));
        }
        let base = match data_dir {
            Some(d) => d,
            None => "C:\\ProgramData".to_owned(),
        };
        NodeManager { install_dir: join_path(base.as_str(), "env-switcher\\node") }
    }

    /// Get the installation directory.
    pub fn install_dir(&self) -> (r: &str)
        ensures
            r@ == self.dir(),
    {
        self.install_dir.as_str()
    }

    /// Get the path for a specific version.
    pub fn version_path(&self, version: &str) -> (r: String)
        ensures
            is_relative_child(version@) && !has_verbatim_prefix(self.dir()) ==> is_suffix_of(
                version@,
                r@,
            ),
            is_relative_child(version@) && takes_separator(self.dir()) ==> is_joined(
                r@,
                self.dir(),
                version@,
            ),
    {
        join_path(self.install_dir.as_str(), version)
    }

    /// The executable whose presence marks a version as installed.
    pub fn node_exe_path(&self, version: &str) -> (r: String)
        ensures
            is_suffix_of("node.exe"@, r@),
            is_relative_child(version@) && !is_separator(version@.last()) && takes_separator(
                self.dir(),
            ) && self.dir().len() >= 4 ==> is_joined_twice(r@, self.dir(), version@, "node.exe"@),
    {
        proof {
            reveal_strlit("node.exe");
            assert(is_plain_path("node.exe"@));
        }
        let dir = self.version_path(version);
        let r = join_path(dir.as_str(), "node.exe");
        proof {
            if is_relative_child(version@) && !is_separator(version@.last()) && takes_separator(
                self.dir(),
            ) && self.dir().len() >= 4 {
                lemma_joined_takes_separator(dir@, self.dir(), version@);
                lemma_joined_twice(r@, dir@, self.dir(), version@, "node.exe"@);
            }
        }
        r
    }

    /// Where the release archive of `version` is downloaded from.
    pub fn download_url(version: &str) -> (r: String)
        ensures
            r@ == node_download_url(version@),
    {
        let mut s = "https://nodejs.org/dist/".to_owned();
        s.append(version);
        s.append("/node-");
        s.append(version);
        s.append("-win-x64.zip");
        s
    }

    /// Where the downloaded archive of `version` is saved.
    pub fn archive_path(&self, version: &str) -> (r: String)
        ensures
            is_plain_name(node_archive_name(version@)) ==> is_suffix_of(
                node_archive_name(version@),
                r@,
            ),
            is_relative_child(node_archive_name(version@)) && takes_separator(self.dir())
                ==> is_joined(r@, self.dir(), node_archive_name(version@)),
    {
        let mut name = "node-".to_owned();
        name.append(version);
        name.append(".zip");
        join_path(self.install_dir.as_str(), name.as_str())
    }

    /// The folder that the archive of `version` unpacks to.
    pub fn extracted_path(&self, version: &str) -> (r: String)
        ensures
            is_plain_name(node_extracted_name(version@)) ==> is_suffix_of(
                node_extracted_name(version@),
                r@,
            ),
            is_relative_child(node_extracted_name(version@)) && takes_separator(self.dir())
                ==> is_joined(r@, self.dir(), node_extracted_name(version@)),
    {
        let mut name = "node-".to_owned();
        name.append(version);
        name.append("-win-x64");
        join_path(self.install_dir.as_str(), name.as_str())
    }

    /// The version in the output of `node --version`.
    pub fn parse_version_output(stdout: &str) -> (r: String)
        ensures
            r@ == node_version_of_output(stdout@),
    {
        let cs = chars_of(stdout);
        let t = trim(cs.as_slice());
        let v = trim_start_matches(t.as_slice(), 'v');
        string_of(v.as_slice())
    }

    /// Whether the output of the installed `node --version` reports
    /// `version` (its version starts with it).
    pub fn output_reports_version(stdout: &str, version: &str) -> (r: bool)
        ensures
            r == is_prefix_of(version@, node_version_of_output(stdout@)),
    {
        let found = Self::parse_version_output(stdout);
        let f = chars_of(found.as_str());
        let v = chars_of(version);
        starts_with(f.as_slice(), v.as_slice())
    }
}

} // verus!
