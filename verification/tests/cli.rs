use escudo::cli::{
    defaults_notice, exit_code, select_format, FormatFlags, Overrides, EXIT_ERROR,
};
use escudo::config::EscudoConfig;
use escudo::report::OutputFormat;

fn format(html: bool, json: bool, github: bool, github_actions: bool) -> OutputFormat {
    select_format(FormatFlags { html, json, github, github_actions })
}

fn none() -> Overrides {
    Overrides {
        cooldown_days: None,
        allow_git_deps: false,
        allow_path_deps: false,
        max_duplicate_versions: None,
    }
}

#[test]
fn formats() {
    assert_eq!(format(true, true, true, true), OutputFormat::Html);
    assert_eq!(format(false, true, true, true), OutputFormat::Json);
    assert_eq!(format(false, false, true, false), OutputFormat::Github);
    assert_eq!(format(false, false, false, true), OutputFormat::Github);
    assert_eq!(format(false, false, false, false), OutputFormat::Human);
}

#[test]
fn overrides_go_before_the_configuration() {
    let mut config = EscudoConfig::default();
    config.banned_crates = vec!["evil".to_string()];
    let overrides = Overrides {
        cooldown_days: Some(14),
        allow_git_deps: true,
        allow_path_deps: true,
        max_duplicate_versions: Some(2),
    };
    for _ in 0..2 {
        overrides.apply(&mut config);
        assert_eq!(config.cooldown_days, 14);
        assert!(config.allow_git_deps);
        assert!(config.allow_path_deps);
        assert_eq!(config.max_duplicate_versions, Some(2));
        assert_eq!(config.banned_crates, vec!["evil"]);
    }
}

#[test]
fn nothing_overridden() {
    let mut config = EscudoConfig::default();
    config.cooldown_days = 30;
    config.allow_git_deps = true;
    config.max_duplicate_versions = Some(3);
    none().apply(&mut config);
    assert_eq!(config.cooldown_days, 30);
    assert!(config.allow_git_deps);
    assert!(!config.allow_path_deps);
    assert_eq!(config.max_duplicate_versions, Some(3));
    assert!(!none().is_any());
}

#[test]
fn anything_overridden() {
    assert!(Overrides { cooldown_days: Some(0), ..none() }.is_any());
    assert!(Overrides { allow_git_deps: true, ..none() }.is_any());
    assert!(Overrides { allow_path_deps: true, ..none() }.is_any());
    assert!(Overrides { max_duplicate_versions: Some(1), ..none() }.is_any());
}

#[test]
fn the_notice_about_defaults() {
    assert_eq!(
        defaults_notice(false, &none()),
        vec![
            "no escudo.toml found and no CLI overrides set",
            "running with defaults: cooldown_days=7, git/path deps blocked",
            "license and duplicate checks are disabled until configured",
            "",
            "create an escudo.toml or pass flags like --cooldown-days 14",
            "see: escudo --help",
        ]
    );
    assert!(defaults_notice(true, &none()).is_empty());
    assert!(defaults_notice(false, &Overrides { allow_git_deps: true, ..none() }).is_empty());
}

#[test]
fn exit_codes() {
    assert_eq!(exit_code(true), 0);
    assert_eq!(exit_code(false), 1);
    assert_eq!(EXIT_ERROR, 2);
}
