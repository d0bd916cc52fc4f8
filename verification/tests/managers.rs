use env_switcher::{JavaManager, NodeManager};
use env_switcher::order::{name_lt, sorted_names};

#[test]
fn node_paths_and_urls() {
    let m = NodeManager::new(Some("D:\\node".to_string()));
    assert_eq!(m.install_dir(), "D:\\node");
    assert!(m.version_path("18.18.0").starts_with("D:\\node"));
    assert!(m.version_path("18.18.0").ends_with("18.18.0"));
    assert!(m.node_exe_path("18.18.0").ends_with("node.exe"));
    assert_eq!(NodeManager::download_url("v18.18.0"), "https://nodejs.org/dist/v18.18.0/node-v18.18.0-win-x64.zip");
    assert!(m.archive_path("v1").ends_with("node-v1.zip"));
    assert!(m.extracted_path("v1").ends_with("node-v1-win-x64"));
    let d = NodeManager::under_data_dir(None);
    assert!(d.install_dir().starts_with("C:\\ProgramData"));
    assert!(d.install_dir().ends_with("env-switcher\\node"));
    assert!(NodeManager::new(None).install_dir().ends_with("env-switcher\\node"));
}

#[test]
fn node_version_output_is_read() {
    assert_eq!(NodeManager::parse_version_output("v18.18.0\r\n"), "18.18.0");
    assert_eq!(NodeManager::parse_version_output("  vv20.1.0 "), "20.1.0");
    assert_eq!(NodeManager::parse_version_output(""), "");
    assert!(NodeManager::output_reports_version("v18.18.0\n", "18.18"));
    assert!(!NodeManager::output_reports_version("v18.18.0\n", "20"));
}

#[test]
fn java_paths_and_urls() {
    let m = JavaManager::new(Some("D:\\java".to_string()));
    assert_eq!(m.install_dir(), "D:\\java");
    assert!(m.java_exe_path("17").ends_with("bin\\java.exe"));
    assert!(JavaManager::java_exe_in("C:\\jdk").ends_with("bin\\java.exe"));
    assert_eq!(
        JavaManager::download_url("17.0.1+12"),
        "https://api.adoptium.net/v3/binary/version/jdk-17.0.1+12/windows/x64/jdk/hotspot/normal/eclipse"
    );
    assert!(m.archive_path("17").ends_with("jdk-17.zip"));
    assert!(JavaManager::new(None).install_dir().ends_with("env-switcher\\java"));
}

#[test]
fn java_version_output_is_read() {
    let out = "openjdk version \"17.0.1\" 2021-10-19\nOpenJDK Runtime Environment";
    assert_eq!(JavaManager::parse_java_version(out), "17.0.1");
    assert_eq!(JavaManager::parse_java_version("java version 1.8\nversion \"1.8.0_292\"\n"), "1.8.0_292");
    assert_eq!(JavaManager::parse_java_version("no quotes here"), "unknown");
    assert_eq!(JavaManager::parse_java_version(""), "unknown");
    assert_eq!(JavaManager::parse_java_version("\"x\" version \"y\""), "x");
    assert!(JavaManager::output_reports_version(out, "17"));
    assert!(!JavaManager::output_reports_version(out, "11"));
}

#[test]
fn extracted_jdk_folder_is_found() {
    let names = vec!["node-x".to_string(), "jdk-17.0.1+12".to_string(), "jdk-17-other".to_string()];
    assert_eq!(JavaManager::find_extracted_folder(&names, "17.0.1"), Some(1));
    assert_eq!(JavaManager::find_extracted_folder(&names, "17"), Some(1));
    assert_eq!(JavaManager::find_extracted_folder(&names, "21"), None);
}

#[test]
fn default_managers_install_under_env_switcher() {
    assert!(NodeManager::new(None).install_dir().ends_with("env-switcher\\node"));
    assert!(JavaManager::new(None).install_dir().ends_with("env-switcher\\java"));
    assert!(JavaManager::java_exe_in("D:\\jdk").ends_with("bin\\java.exe"));
    assert!(JavaManager::java_exe_in("D:\\jdk").starts_with("D:\\jdk"));
}

#[test]
fn whitespace_test_agrees_with_std() {
    for u in 0u32..=0x10FFFF {
        if let Some(c) = char::from_u32(u) {
            assert_eq!(env_switcher::text::is_whitespace(c), c.is_whitespace(), "{:x}", u);
        }
    }
}

#[test]
fn manager_paths_have_a_separator_between_parts() {
    let sep = std::path::MAIN_SEPARATOR;
    let m = NodeManager::new(Some("D:\\node".to_string()));
    assert_eq!(m.version_path("18.18.0"), format!("D:\\node{}18.18.0", sep));
    assert_eq!(m.node_exe_path("18.18.0"), format!("D:\\node{}18.18.0{}node.exe", sep, sep));
    assert_eq!(m.archive_path("v1"), format!("D:\\node{}node-v1.zip", sep));
    let j = JavaManager::new(Some("D:\\jdk".to_string()));
    assert_eq!(j.version_path("17"), format!("D:\\jdk{}17", sep));
    assert_eq!(j.java_exe_path("17"), format!("D:\\jdk{}17{}bin\\java.exe", sep, sep));
    assert_eq!(JavaManager::java_exe_in("D:\\x"), format!("D:\\x{}bin\\java.exe", sep));
    let d = NodeManager::under_data_dir(Some("D:\\data".to_string()));
    assert_eq!(d.install_dir(), format!("D:\\data{}env-switcher\\node", sep));
}

#[test]
fn installed_versions_are_sorted() {
    let names = vec![
        "20.9.0".to_string(),
        "18.18.0".to_string(),
        "v8".to_string(),
        "18.18.0".to_string(),
        "".to_string(),
        "18".to_string(),
    ];
    let mut expected = names.clone();
    expected.sort();
    assert_eq!(sorted_names(names), expected);
    assert_eq!(sorted_names(Vec::new()), Vec::<String>::new());
    assert!(name_lt("18", "18.0"));
    assert!(name_lt("17", "9"));
    assert!(!name_lt("abc", "abc"));
    assert!(name_lt("Z", "a"));
    assert!(name_lt("a", "é"));
}
