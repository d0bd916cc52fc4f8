use env_switcher::{Config, GlobalMatcher, PathMatcher};

fn create_test_config() -> Config {
    let mut config = Config::default();
    config.add_node_version("18.0.0".to_string(), "C:\\node\\18".to_string());
    config.add_node_version("20.0.0".to_string(), "C:\\node\\20".to_string());
    config.add_java_version("11".to_string(), "C:\\jdk\\11".to_string());
    config.add_java_version("17".to_string(), "C:\\jdk\\17".to_string());

    // Exact path
    config.add_path_mapping(
        "C:\\projects\\web-app".to_string(),
        Some("18.0.0".to_string()),
        Some("11".to_string()),
    );

    // Another path
    config.add_path_mapping(
        "C:\\projects\\backend".to_string(),
        Some("20.0.0".to_string()),
        Some("17".to_string()),
    );

    config
}

#[test]
fn test_exact_match() {
    let config = create_test_config();
    let matcher = PathMatcher::new(config);

    let result = matcher.find_match("C:\\projects\\web-app");

    assert_eq!(result.matched_path, Some("C:\\projects\\web-app".to_string()));
    assert_eq!(result.node_version, Some("18.0.0".to_string()));
    assert_eq!(result.node_path, Some("C:\\node\\18".to_string()));
    assert_eq!(result.java_version, Some("11".to_string()));
    assert_eq!(result.java_home, Some("C:\\jdk\\11".to_string()));
    assert!(!result.is_inherited);
}

#[test]
fn test_subdirectory_inheritance() {
    let config = create_test_config();
    let matcher = PathMatcher::new(config);

    // Subdirectory should inherit parent config
    let result = matcher.find_match("C:\\projects\\web-app\\src\\components");

    assert_eq!(result.matched_path, Some("C:\\projects\\web-app".to_string()));
    assert_eq!(result.node_version, Some("18.0.0".to_string()));
    assert!(result.is_inherited);
}

#[test]
fn test_no_match() {
    let config = create_test_config();
    let matcher = PathMatcher::new(config);

    let result = matcher.find_match("C:\\other\\project");

    assert_eq!(result.matched_path, None);
    assert_eq!(result.node_version, None);
    assert_eq!(result.java_version, None);
}

#[test]
fn test_similar_path_not_matched() {
    let config = create_test_config();
    let matcher = PathMatcher::new(config);

    // web-app2 should NOT match web-app config
    let result = matcher.find_match("C:\\projects\\web-app2");

    assert_eq!(result.matched_path, None);
}

#[test]
fn test_longest_prefix_wins() {
    let mut config = Config::default();
    config.add_node_version("18.0.0".to_string(), "C:\\node\\18".to_string());

    // Parent directory
    config.add_path_mapping(
        "C:\\projects".to_string(),
        Some("18.0.0".to_string()),
        None,
    );

    // Child directory - should take priority for subdirectories
    config.add_path_mapping(
        "C:\\projects\\web-app".to_string(),
        Some("18.0.0".to_string()),
        None,
    );

    let matcher = PathMatcher::new(config);
    let result = matcher.find_match("C:\\projects\\web-app\\src");

    assert_eq!(result.matched_path, Some("C:\\projects\\web-app".to_string()));
}

#[test]
fn match_ignores_case_and_slash_direction() {
    let matcher = PathMatcher::new(create_test_config());
    let result = matcher.find_match("c:/PROJECTS/Web-App");
    assert_eq!(result.matched_path, Some("C:\\projects\\web-app".to_string()));
    assert!(!result.is_inherited);
    let result = matcher.find_match("c:/projects/web-app/src");
    assert_eq!(result.matched_path, Some("C:\\projects\\web-app".to_string()));
    assert!(result.is_inherited);
}

#[test]
fn unregistered_version_has_no_install_path() {
    let mut config = Config::default();
    config.add_path_mapping("D:\\work".to_string(), Some("22.1.0".to_string()), None);
    let matcher = PathMatcher::new(config);
    let result = matcher.find_match("D:\\work");
    assert_eq!(result.node_version, Some("22.1.0".to_string()));
    assert_eq!(result.node_path, None);
    assert_eq!(result.java_version, None);
    assert_eq!(result.java_home, None);
}

#[test]
fn exact_match_beats_earlier_ancestor() {
    let mut config = Config::default();
    config.add_path_mapping("C:\\a".to_string(), Some("1".to_string()), None);
    config.add_path_mapping("C:\\a\\b".to_string(), Some("2".to_string()), None);
    let matcher = PathMatcher::new(config);
    let result = matcher.find_match("C:\\a\\b");
    assert_eq!(result.matched_path, Some("C:\\a\\b".to_string()));
    assert_eq!(result.node_version, Some("2".to_string()));
    assert!(!result.is_inherited);
}

#[test]
fn equally_deep_mappings_first_wins() {
    let mut config = Config::default();
    config.add_path_mapping("C:\\A".to_string(), Some("1".to_string()), None);
    config.add_path_mapping("c:\\a".to_string(), Some("2".to_string()), None);
    let matcher = PathMatcher::new(config);
    let result = matcher.find_match("C:\\a\\x");
    assert_eq!(result.matched_path, Some("C:\\A".to_string()));
    assert!(result.is_inherited);
    let result = matcher.find_match("c:\\a");
    assert_eq!(result.matched_path, Some("C:\\A".to_string()));
    assert!(!result.is_inherited);
}

#[test]
fn managed_path_follows_match() {
    let matcher = PathMatcher::new(create_test_config());
    assert!(matcher.is_managed_path("C:\\projects\\backend\\src"));
    assert!(!matcher.is_managed_path("C:\\projects"));
    assert_eq!(matcher.get_configured_paths().len(), 2);
    assert_eq!(matcher.get_configured_paths()[1].path, "C:\\projects\\backend");
}

#[test]
fn reload_keeps_config_on_error() {
    let mut matcher = PathMatcher::new(create_test_config());
    let failed: Result<Config, String> = Err("unreadable".to_string());
    assert_eq!(matcher.reload_config(failed), Err("unreadable".to_string()));
    assert!(matcher.is_managed_path("C:\\projects\\web-app"));
    let loaded: Result<Config, String> = Ok(Config::default());
    assert_eq!(matcher.reload_config(loaded), Ok(()));
    assert!(!matcher.is_managed_path("C:\\projects\\web-app"));
}

#[test]
fn cached_result_equals_fresh_match() {
    let loaded: Result<Config, String> = Ok(create_test_config());
    let mut global = GlobalMatcher::new(loaded).unwrap();
    let first = global.find_or_cached("C:\\projects\\backend\\x").clone();
    assert_eq!(first.matched_path, Some("C:\\projects\\backend".to_string()));
    let again = global.find_or_cached("C:\\projects\\backend\\x").clone();
    assert_eq!(again.matched_path, first.matched_path);
    let other = global.find_or_cached("C:\\elsewhere").clone();
    assert_eq!(other.matched_path, None);
    let failed: Result<Config, String> = Err("missing".to_string());
    assert!(GlobalMatcher::new(failed).is_err());
}

#[test]
fn normalize_path_lowercases_and_turns_slashes() {
    assert_eq!(PathMatcher::normalize_path("C:/Users/ÄB"), "c:\\users\\äb");
}

#[test]
fn added_mapping_resolves_to_itself() {
    let mut config = create_test_config();
    config.add_path_mapping("C:\\projects\\web-app".to_string(), Some("20.0.0".to_string()), None);
    let matcher = PathMatcher::new(config);
    let result = matcher.find_match("C:\\projects\\web-app");
    assert_eq!(result.matched_path, Some("C:\\projects\\web-app".to_string()));
    assert_eq!(result.node_version, Some("20.0.0".to_string()));
    assert_eq!(result.node_path, Some("C:\\node\\20".to_string()));
    assert_eq!(result.java_version, None);
    assert!(!result.is_inherited);
}

#[test]
fn select_mapping_on_normalized_paths() {
    let ns = vec![
        "c:\\projects".to_string(),
        "c:\\projects\\web-app".to_string(),
        "c:\\projects\\backend".to_string(),
    ];
    assert_eq!(PathMatcher::select_mapping(&ns, "c:\\projects\\web-app"), Some((1, false)));
    assert_eq!(PathMatcher::select_mapping(&ns, "c:\\projects\\web-app\\src"), Some((1, true)));
    assert_eq!(PathMatcher::select_mapping(&ns, "c:\\projects\\web-app2"), Some((0, true)));
    assert_eq!(PathMatcher::select_mapping(&ns, "c:\\projects"), Some((0, false)));
    assert_eq!(PathMatcher::select_mapping(&ns, "d:\\other"), None);
    assert_eq!(PathMatcher::select_mapping(&ns, "c:\\proj"), None);
    assert_eq!(PathMatcher::select_mapping(&Vec::new(), "c:\\projects"), None);
}

#[test]
fn select_mapping_prefers_first_of_equal_paths() {
    let ns = vec!["c:\\a".to_string(), "c:\\a".to_string()];
    assert_eq!(PathMatcher::select_mapping(&ns, "c:\\a"), Some((0, false)));
    assert_eq!(PathMatcher::select_mapping(&ns, "c:\\a\\b"), Some((0, true)));
}
