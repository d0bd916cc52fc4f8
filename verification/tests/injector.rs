use env_switcher::HookInjector;
use env_switcher::injector::{HOOK_SCRIPT_HEAD, HOOK_SCRIPT_MIDDLE, HOOK_SCRIPT_TAIL};

#[test]
fn hook_script_doubles_backslashes_of_paths() {
    let s = HookInjector::render_hook_script("C:\\Users\\a\\config.json", "C:\\Users\\a");
    assert!(s.contains("$EnvSwitcherConfigPath = \"C:\\\\Users\\\\a\\\\config.json\""));
    assert!(s.contains("$EnvSwitcherDataDir = \"C:\\\\Users\\\\a\""));
    assert!(s.starts_with("# Env Switcher Hook"));
    assert_eq!(
        s,
        format!("{}C:\\\\Users\\\\a\\\\config.json{}C:\\\\Users\\\\a{}", HOOK_SCRIPT_HEAD, HOOK_SCRIPT_MIDDLE, HOOK_SCRIPT_TAIL)
    );
    assert!(s.contains("function global:Get-EnvSwitcherStatus {"));
}

#[test]
fn generated_script_uses_default_data_dir() {
    let injector = HookInjector::new();
    let s = injector.generate_hook_script("C:\\cfg.json");
    assert!(s.contains("$EnvSwitcherConfigPath = \"C:\\\\cfg.json\""));
    assert!(injector.hook_script_path().ends_with("hook.ps1"));
    let dir = env_switcher::Config::default_config_dir();
    assert!(injector.hook_script_path().starts_with(dir.as_str()));
    assert_eq!(injector.hook_script_path().len(), dir.len() + 1 + "hook.ps1".len());
}

#[test]
fn source_line_quotes_script_path() {
    let injector = HookInjector::in_config_dir("C:\\data");
    let line = injector.source_line();
    assert!(line.starts_with(". 'C:\\data"));
    assert!(line.ends_with("hook.ps1'"));
}

#[test]
fn install_appends_line_once() {
    let (p1, newly) = HookInjector::profile_with_hook("Set-Alias ll ls", ". 'C:\\h.ps1'");
    assert!(newly);
    assert_eq!(p1, "Set-Alias ll ls\n\n. 'C:\\h.ps1'");
    assert!(HookInjector::profile_has_hook(&p1, ". 'C:\\h.ps1'"));
    let (p2, newly2) = HookInjector::profile_with_hook(&p1, ". 'C:\\h.ps1'");
    assert!(!newly2);
    assert_eq!(p2, p1);
    let (p3, _) = HookInjector::profile_with_hook("", "X");
    assert_eq!(p3, "\n\nX");
}

#[test]
fn uninstall_removes_hook_lines() {
    let profile = "a\r\n  . 'C:\\h.ps1'  \n\n. $PSScriptRoot\\x.ps1\nb\n";
    let out = HookInjector::profile_without_hook(profile, ". 'C:\\h.ps1'");
    assert_eq!(out, "a\n\nb");
    assert!(!HookInjector::profile_has_hook(&out, ". 'C:\\h.ps1'"));
    assert_eq!(HookInjector::profile_without_hook("", "x"), "");
    assert_eq!(HookInjector::profile_without_hook("only\r", "x"), "only\r");
}

#[test]
fn profile_candidates_follow_documents_dir() {
    let (ps7, winps) = HookInjector::profile_paths_in(None);
    assert!(ps7.starts_with("C:\\Users\\Public\\Documents"));
    assert!(ps7.ends_with("PowerShell\\7\\Microsoft.PowerShell_profile.ps1"));
    assert!(winps.ends_with("WindowsPowerShell\\Microsoft.PowerShell_profile.ps1"));
    let (ps7b, _) = HookInjector::profile_paths_in(Some("D:\\Docs".to_string()));
    assert!(ps7b.starts_with("D:\\Docs"));
}

#[test]
fn platform_profile_paths_end_with_profile_files() {
    let (ps7, winps) = HookInjector::profile_paths();
    assert!(ps7.ends_with("PowerShell\\7\\Microsoft.PowerShell_profile.ps1"));
    assert!(winps.ends_with("WindowsPowerShell\\Microsoft.PowerShell_profile.ps1"));
}

#[test]
fn profile_paths_are_joined_with_a_separator() {
    let sep = std::path::MAIN_SEPARATOR;
    let (a, b) = HookInjector::profile_paths_in(Some("D:\\Docs".to_string()));
    assert_eq!(a, format!("D:\\Docs{}PowerShell\\7\\Microsoft.PowerShell_profile.ps1", sep));
    assert_eq!(b, format!("D:\\Docs{}WindowsPowerShell\\Microsoft.PowerShell_profile.ps1", sep));
    let i = HookInjector::in_config_dir("D:\\cfg");
    assert_eq!(i.hook_script_path(), format!("D:\\cfg{}hook.ps1", sep));
}
