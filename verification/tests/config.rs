use env_switcher::{Config, VersionTable};
use env_switcher::config::VersionConfig;

#[test]
fn add_node_version_registers_under_version() {
    let mut config = Config::default();
    config.add_node_version("20.9.0".to_string(), "C:\\node\\20.9.0".to_string());
    let v = config.node_versions.get("20.9.0").unwrap();
    assert_eq!(v.path, "C:\\node\\20.9.0");
    assert_eq!(v.version, "20.9.0");
    assert_eq!(v.download_url, None);
    assert!(config.node_versions.contains_key("20.9.0"));
    assert!(!config.java_versions.contains_key("20.9.0"));
}

#[test]
fn adding_a_version_again_replaces_it() {
    let mut config = Config::default();
    config.add_java_version("11".to_string(), "C:\\jdk\\old".to_string());
    config.add_java_version("17".to_string(), "C:\\jdk\\17".to_string());
    config.add_java_version("11".to_string(), "C:\\jdk\\new".to_string());
    assert_eq!(config.java_versions.len(), 2);
    assert_eq!(config.java_versions.get("11").unwrap().path, "C:\\jdk\\new");
    let keys: Vec<&str> = config.java_versions.entries().iter().map(|e| e.0.as_str()).collect();
    assert_eq!(keys, vec!["11", "17"]);
}

#[test]
fn removing_a_version_keeps_the_others_in_order() {
    let mut table = VersionTable::new();
    for v in ["a", "b", "c"] {
        table.insert(v.to_string(), VersionConfig { path: format!("P{}", v), version: v.to_string(), download_url: None });
    }
    table.remove("b");
    table.remove("zzz");
    let keys: Vec<&str> = table.entries().iter().map(|e| e.0.as_str()).collect();
    assert_eq!(keys, vec!["a", "c"]);
    assert!(table.get("b").is_none());
    assert_eq!(table.clone().len(), 2);
}

#[test]
fn add_path_mapping_replaces_same_path_and_goes_last() {
    let mut config = Config::default();
    config.add_path_mapping("C:\\a".to_string(), Some("1".to_string()), None);
    config.add_path_mapping("C:\\b".to_string(), None, Some("11".to_string()));
    config.add_path_mapping("C:\\a".to_string(), Some("2".to_string()), None);
    assert_eq!(config.path_mappings.len(), 2);
    assert_eq!(config.path_mappings[0].path, "C:\\b");
    assert_eq!(config.path_mappings[1].path, "C:\\a");
    assert_eq!(config.path_mappings[1].node_version, Some("2".to_string()));
}

#[test]
fn remove_path_mapping_drops_every_mapping_of_that_path() {
    let mut config = Config::default();
    config.add_path_mapping("C:\\a".to_string(), None, None);
    config.add_path_mapping("C:\\b".to_string(), None, None);
    config.remove_path_mapping("C:\\a");
    assert_eq!(config.path_mappings.len(), 1);
    assert_eq!(config.path_mappings[0].path, "C:\\b");
    config.remove_path_mapping("C:\\missing");
    assert_eq!(config.path_mappings.len(), 1);
}

#[test]
fn remove_after_add_restores_the_mappings() {
    let mut config = Config::default();
    config.add_path_mapping("C:\\keep".to_string(), None, None);
    config.add_path_mapping("C:\\x".to_string(), Some("1".to_string()), None);
    config.remove_path_mapping("C:\\x");
    assert_eq!(config.path_mappings.len(), 1);
    assert_eq!(config.path_mappings[0].path, "C:\\keep");
}

#[test]
fn default_config_locations_end_as_expected() {
    assert!(Config::default_config_dir().ends_with("env-switcher"));
    assert!(Config::default_config_path().ends_with("config.json"));
    let dir = Config::config_dir_in(None);
    assert!(dir.starts_with("C:\\ProgramData"));
    assert!(dir.ends_with("env-switcher"));
    assert_eq!(dir.len(), "C:\\ProgramData".len() + 1 + "env-switcher".len());
}

#[test]
fn save_path_is_default_path() {
    let mut config = Config::default();
    assert_eq!(config.save_path(), Config::default_config_path());
    config.config_path = Some("D:\\cfg\\mine.json".to_string());
    assert_eq!(config.save_path(), Config::default_config_path());
    assert!(config.save_path().ends_with("config.json"));
}

#[test]
fn config_path_under_given_data_dir() {
    let p = Config::config_path_in(Some("D:\\data".to_string()));
    assert!(p.starts_with("D:\\data"));
    assert!(p.ends_with("config.json"));
    assert!(p.contains("env-switcher"));
    assert_eq!(p.len(), "D:\\data".len() + 1 + "env-switcher".len() + 1 + "config.json".len());
    let q = Config::config_path_in(None);
    assert!(q.starts_with("C:\\ProgramData"));
    assert!(q.ends_with("config.json"));
    assert_eq!(Config::default_config_path(), Config::config_path_in(dirs::data_local_dir().map(|d| d.to_string_lossy().into_owned())));
}

#[test]
fn adding_mappings_keeps_paths_distinct() {
    let mut config = Config::default();
    config.add_path_mapping("C:\\a".to_string(), Some("18".to_string()), None);
    config.add_path_mapping("C:\\b".to_string(), None, Some("17".to_string()));
    assert_eq!(config.path_mappings.len(), 2);
    config.add_path_mapping("C:\\a".to_string(), Some("20".to_string()), None);
    assert_eq!(config.path_mappings.len(), 2);
    assert_eq!(config.path_mappings[0].path, "C:\\b");
    assert_eq!(config.path_mappings[1].path, "C:\\a");
    assert_eq!(config.path_mappings[1].node_version.as_deref(), Some("20"));
    config.add_path_mapping("C:\\c".to_string(), None, None);
    assert_eq!(config.path_mappings.len(), 3);
    let paths: Vec<&str> = config.path_mappings.iter().map(|m| m.path.as_str()).collect();
    for i in 0..paths.len() {
        for j in (i + 1)..paths.len() {
            assert_ne!(paths[i], paths[j]);
        }
    }
}

#[test]
fn joined_paths_have_a_separator_between_parts() {
    let sep = std::path::MAIN_SEPARATOR;
    let p = Config::config_path_in(Some("D:\\data".to_string()));
    assert_eq!(p, format!("D:\\data{}env-switcher{}config.json", sep, sep));
    let d = Config::config_dir_in(Some("D:\\data".to_string()));
    assert_eq!(d, format!("D:\\data{}env-switcher", sep));
}
