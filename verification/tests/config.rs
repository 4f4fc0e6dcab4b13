use escudo::config::{locate_config, ConfigCandidates, ConfigLocation, EscudoConfig};

#[test]
fn test_defaults() {
    let cfg = EscudoConfig::default();
    assert_eq!(cfg.cooldown_days, 7);
    assert!(!cfg.allow_git_deps);
    assert!(!cfg.allow_path_deps);
    assert_eq!(cfg.max_duplicate_versions, None);
    assert!(cfg.allowed_licenses.is_empty());
    assert!(cfg.banned_crates.is_empty());
    assert!(cfg.exceptions.is_empty());
}

fn locate(explicit: Option<bool>, project_exists: bool, current_exists: bool) -> Option<ConfigLocation> {
    locate_config(ConfigCandidates {
        explicit: explicit.is_some(),
        explicit_exists: explicit == Some(true),
        project_exists,
        current_exists,
    })
}

#[test]
fn a_named_file_goes_first() {
    assert_eq!(locate(Some(true), true, true), Some(ConfigLocation::Explicit));
    assert_eq!(locate(Some(true), false, false), Some(ConfigLocation::Explicit));
}

#[test]
fn a_named_file_has_to_exist() {
    assert_eq!(locate(Some(false), true, true), None);
    assert_eq!(locate(Some(false), false, false), None);
}

#[test]
fn the_project_goes_before_the_current_directory() {
    assert_eq!(locate(None, true, true), Some(ConfigLocation::Project));
    assert_eq!(locate(None, true, false), Some(ConfigLocation::Project));
    assert_eq!(locate(None, false, true), Some(ConfigLocation::Current));
}

#[test]
fn defaults_where_there_is_no_file() {
    assert_eq!(locate(None, false, false), Some(ConfigLocation::Defaults));
}
