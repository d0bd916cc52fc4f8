//! Java JDK version management: where JDKs are installed, where their
//! archives come from, and how `java -version` output is read.

use vstd::prelude::*;
use crate::config::opt_view;
use crate::paths::{
    data_dir_base, data_local_dir, has_verbatim_prefix, is_joined, is_plain_name, is_plain_path, is_relative_child,
    is_joined_twice, is_separator, is_suffix_of, join_path, lemma_joined_takes_separator,
    lemma_joined_twice, takes_separator,
};
use crate::text::{
    chars_of, contains, contains_seq, find_char_from, index_of_char, is_prefix_of, lines,
    lines_of, starts_with, string_of_range, lemma_index_of_char,
};

verus! {

broadcast use vstd::string::group_string_axioms;

/// Java version information.
#[derive(Debug)]
pub struct JavaVersion {
    pub version: String,
    pub vendor: String,
    pub install_path: String,
}

/// The quoted version on a line of `java -version` output: the text between
/// the first two double quotes of a line that mentions `version`.
pub open spec fn java_version_in_line(line: Seq<char>) -> Option<Seq<char>> {
    if contains_seq(line, "version"@) {
        let start = index_of_char(line, '"');
        if start < line.len() {
            let rest = line.skip(start + 1);
            let end = index_of_char(rest, '"');
            if end < rest.len() {
                Some(rest.take(end))
            } else {
                None
            }
        } else {
            None
        }
    } else {
        None
    }
}

/// The version reported by the first line that has one, or `unknown`.
pub open spec fn java_version_of_lines(ls: Seq<Seq<char>>) -> Seq<char>
    decreases ls.len(),
{
    if ls.len() == 0 {
        "unknown"@
    } else {
        match java_version_in_line(ls[0]) {
            Some(v) => v,
            None => java_version_of_lines(ls.drop_first()),
        }
    }
}

/// The version that `java -version` printed (for example `17.0.1` from
/// `openjdk version "17.0.1" 2021-10-19`), or `unknown`.
pub open spec fn java_version_of_output(output: Seq<char>) -> Seq<char> {
    java_version_of_lines(lines_of(output))
}

/// Where the Temurin build of a JDK version is downloaded from.
pub open spec fn java_download_url(version: Seq<char>) -> Seq<char> {
    "https://api.adoptium.net/v3/binary/version/jdk-"@ + version
        + "/windows/x64/jdk/hotspot/normal/eclipse"@
}

/// The file name the downloaded archive is saved under.
pub open spec fn java_archive_name(version: Seq<char>) -> Seq<char> {
    "jdk-"@ + version + ".zip"@
}

/// An unpacked folder that holds the JDK `version`: its name mentions `jdk`
/// and the version.
pub open spec fn is_jdk_folder_of(name: Seq<char>, version: Seq<char>) -> bool {
    contains_seq(name, "jdk"@) && contains_seq(name, version)
}

/// Java manager.
#[derive(Debug)]
pub struct JavaManager {
    install_dir: String,
}

impl JavaManager {
    /// The installation directory.
    pub closed spec fn dir(&self) -> Seq<char> {
        self.install_dir@
    }

    /// A manager installing into `install_dir`, or into `env-switcher\java`
    /// under the platform's local data directory when none is given.
    pub fn new(install_dir: Option<String>) -> (r: Self)
        ensures
            install_dir matches Some(d) ==> r.dir() == d@,
            install_dir is None ==> is_suffix_of("env-switcher\\java"@, r.dir()),
    {
        match install_dir {
            Some(d) => JavaManager { install_dir: d },
            None => Self::under_data_dir(data_local_dir()),
        }
    }

    /// A manager installing into `env-switcher\java` under `data_dir`
    /// (`C:\ProgramData` when there is none).
    pub fn under_data_dir(data_dir: Option<String>) -> (r: Self)
        ensures
            is_suffix_of("env-switcher\\java"@, r.dir()),
            takes_separator(data_dir_base(opt_view(data_dir))) ==> is_joined(
                r.dir(),
                data_dir_base(opt_view(data_dir)),
                "env-switcher\\java"@,
            ),
    {
        proof {
            reveal_strlit("env-switcher\\java");
            reveal_strlit("C:\\ProgramData");
            assert(is_plain_path("env-switcher\\java"@));
        }
        let base = match data_dir {
            Some(d) => d,
            None => "C:\\ProgramData".to_owned(),
        };
        JavaManager { install_dir: join_path(base.as_str(), "env-switcher\\java") }
    }

    /// Get the installation directory.
    pub fn install_dir(&self) -> (r: &str)
        ensures
            r@ == self.dir(),
    {
        self.install_dir.as_str()
    }

    /// Get the path for a specific version.
    pub fn version_path(&self, version: &str) -> (r: String)
        ensures
            is_relative_child(version@) && !has_verbatim_prefix(self.dir()) ==> is_suffix_of(
                version@,
                r@,
            ),
            is_relative_child(version@) && takes_separator(self.dir()) ==> is_joined(
                r@,
                self.dir(),
                version@,
            ),
    {
        join_path(self.install_dir.as_str(), version)
    }

    /// The executable whose presence marks a version as installed.
    pub fn java_exe_path(&self, version: &str) -> (r: String)
        ensures
            is_suffix_of("bin\\java.exe"@, r@),
            is_relative_child(version@) && !is_separator(version@.last()) && takes_separator(
                self.dir(),
            ) && self.dir().len() >= 4 ==> is_joined_twice(r@, self.dir(), version@, "bin\\java.exe"@),
    {
        proof {
            reveal_strlit("bin\\java.exe");
            assert(is_plain_path("bin\\java.exe"@));
        }
        let dir = self.version_path(version);
        let r = join_path(dir.as_str(), "bin\\java.exe");
        proof {
            if is_relative_child(version@) && !is_separator(version@.last()) && takes_separator(
                self.dir(),
            ) && self.dir().len() >= 4 {
                lemma_joined_takes_separator(dir@, self.dir(), version@);
                lemma_joined_twice(r@, dir@, self.dir(), version@, "bin\\java.exe"@);
            }
        }
        r
    }

    /// The executable that an existing JDK at `jdk_home` must have.
    pub fn java_exe_in(jdk_home: &str) -> (r: String)
        ensures
            is_suffix_of("bin\\java.exe"@, r@),
            takes_separator(jdk_home@) ==> is_joined(r@, jdk_home@, "bin\\java.exe"@),
    {
        proof {
            reveal_strlit("bin\\java.exe");
            assert(is_plain_path("bin\\java.exe"@));
        }
        join_path(jdk_home, "bin\\java.exe")
    }

    /// Where the Temurin build of `version` is downloaded from.
    pub fn download_url(version: &str) -> (r: String)
        ensures
            r@ == java_download_url(version@),
    {
        let mut s = "https://api.adoptium.net/v3/binary/version/jdk-".to_owned();
        s.append(version);
        s.append("/windows/x64/jdk/hotspot/normal/eclipse");
        s
    }

    /// Where the downloaded archive of `version` is saved.
    pub fn archive_path(&self, version: &str) -> (r: String)
        ensures
            is_plain_name(java_archive_name(version@)) ==> is_suffix_of(
                java_archive_name(version@),
                r@,
            ),
            is_relative_child(java_archive_name(version@)) && takes_separator(self.dir())
                ==> is_joined(r@, self.dir(), java_archive_name(version@)),
    {
        let mut name = "jdk-".to_owned();
        name.append(version);
        name.append(".zip");
        join_path(self.install_dir.as_str(), name.as_str())
    }

    /// Which of the unpacked folders (named in the order they are listed)
    /// holds the JDK `version`: the first whose name mentions `jdk` and the
    /// version.
    pub fn find_extracted_folder(names: &Vec<String>, version: &str) -> (r: Option<usize>)
        ensures
            match r {
                Some(i) => i < names@.len() && is_jdk_folder_of(names@[i as int]@, version@)
                    && forall|j: int| 0 <= j < i ==> !is_jdk_folder_of(names@[j]@, version@),
                None => forall|j: int|
                    0 <= j < names@.len() ==> !is_jdk_folder_of(names@[j]@, version@),
            },
    {
        let jdk = chars_of("jdk");
        let v = chars_of(version);
        let n = names.len();
        for i in 0..n
            invariant
                n == names@.len(),
                jdk@ == "jdk"@,
                v@ == version@,
                forall|j: int| 0 <= j < i ==> !is_jdk_folder_of(names@[j]@, version@),
        {
            let name = chars_of(names[i].as_str());
            if contains(name.as_slice(), jdk.as_slice()) && contains(name.as_slice(), v.as_slice()) {
                return Some(i);
            }
        }
        None
    }

    /// The quoted version on one line, if the line reports one.
    fn version_in_line(line: &Vec<char>) -> (r: Option<String>)
        ensures
            match r {
                Some(v) => java_version_in_line(line@) == Some(v@),
                None => java_version_in_line(line@) is None,
            },
    {
        let word = chars_of("version");
        if !contains(line.as_slice(), word.as_slice()) {
            return None;
        }
        let start = find_char_from(line.as_slice(), '"', 0);
        proof {
            assert(line@.skip(0) == line@);
        }
        if start >= line.len() {
            return None;
        }
        let end = find_char_from(line.as_slice(), '"', start + 1);
        if end >= line.len() {
            return None;
        }
        proof {
            let rest = line@.skip(start + 1);
            lemma_index_of_char(rest, '"');
            assert(rest.take(end - start - 1) =~= line@.subrange(start + 1, end as int));
        }
        Some(string_of_range(line.as_slice(), start + 1, end))
    }

    /// Parse Java version string.
    pub fn parse_java_version(output: &str) -> (r: String)
        ensures
            r@ == java_version_of_output(output@),
    {
        let cs = chars_of(output);
        let ls = lines(cs.as_slice());
        let ghost lsv = ls@.map_values(|x: Vec<char>| x@);
        let n = ls.len();
        assert(lsv.skip(0) == lsv);
        for i in 0..n
            invariant
                n == ls@.len(),
                lsv == ls@.map_values(|x: Vec<char>| x@),
                lsv == lines_of(output@),
                java_version_of_lines(lsv.skip(i as int)) == java_version_of_lines(lsv),
        {
            proof {
                let rest = lsv.skip(i as int);
                assert(rest[0] == ls@[i as int]@);
                assert(rest.drop_first() =~= lsv.skip(i + 1));
            }
            match Self::version_in_line(&ls[i]) {
                Some(v) => {
                    return v;
                },
                None => {},
            }
        }
        proof {
            assert(lsv.skip(n as int) =~= Seq::<Seq<char>>::empty());
        }
        "unknown".to_owned()
    }

    /// Whether the output of the installed `java -version` reports `version`
    /// (the version it prints starts with it).
    pub fn output_reports_version(output: &str, version: &str) -> (r: bool)
        ensures
            r == is_prefix_of(version@, java_version_of_output(output@)),
    {
        let found = Self::parse_java_version(output);
        let f = chars_of(found.as_str());
        let v = chars_of(version);
        starts_with(f.as_slice(), v.as_slice())
    }
}

} // verus!
