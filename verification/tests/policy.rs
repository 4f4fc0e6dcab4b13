use escudo::config::EscudoConfig;
use escudo::license::license_is_acceptable;
use escudo::metadata::{third_party_packages, PackageInfo, PackageSource, ResolvedPackage};
use escudo::policy::{check_policies, PolicyViolation};

fn default_config() -> EscudoConfig {
    EscudoConfig::default()
}

fn cratesio_pkg(name: &str, version: &str, license: Option<&str>) -> PackageInfo {
    PackageInfo {
        name: name.to_string(),
        version: version.to_string(),
        source: PackageSource::CratesIo,
        license: license.map(|s| s.to_string()),
        manifest_path: String::new(),
    }
}

fn git_pkg(name: &str, url: &str) -> PackageInfo {
    PackageInfo {
        name: name.to_string(),
        version: "0.1.0".to_string(),
        source: PackageSource::Git {
            url: url.to_string(),
        },
        license: Some("MIT".to_string()),
        manifest_path: String::new(),
    }
}

fn path_pkg(name: &str, path: &str) -> PackageInfo {
    PackageInfo {
        name: name.to_string(),
        version: "0.1.0".to_string(),
        source: PackageSource::Path {
            path: path.to_string(),
        },
        license: Some("MIT".to_string()),
        manifest_path: String::new(),
    }
}

#[test]
fn git_dep_flagged_when_disallowed() {
    let config = default_config(); // allow_git_deps = false
    let packages = vec![git_pkg("my-crate", "https://github.com/foo/bar")];
    let v = check_policies(&config, &packages);
    assert_eq!(v.len(), 1);
    assert!(matches!(&v[0], PolicyViolation::GitDependency { name, .. } if name == "my-crate"));
}

#[test]
fn git_dep_allowed_when_configured() {
    let mut config = default_config();
    config.allow_git_deps = true;
    let packages = vec![git_pkg("my-crate", "https://github.com/foo/bar")];
    let v = check_policies(&config, &packages);
    assert!(v.is_empty());
}

#[test]
fn path_dep_flagged_when_disallowed() {
    let config = default_config(); // allow_path_deps = false
    let packages = vec![path_pkg("local-lib", "../local-lib")];
    let v = check_policies(&config, &packages);
    assert_eq!(v.len(), 1);
    assert!(
        matches!(&v[0], PolicyViolation::PathDependency { name, .. } if name == "local-lib")
    );
}

#[test]
fn path_dep_allowed_when_configured() {
    let mut config = default_config();
    config.allow_path_deps = true;
    let packages = vec![path_pkg("local-lib", "../local-lib")];
    let v = check_policies(&config, &packages);
    assert!(v.is_empty());
}

#[test]
fn banned_crate_flagged() {
    let mut config = default_config();
    config.banned_crates = vec!["evil-crate".to_string()];
    let packages = vec![cratesio_pkg("evil-crate", "1.0.0", Some("MIT"))];
    let v = check_policies(&config, &packages);
    assert_eq!(v.len(), 1);
    assert!(matches!(&v[0], PolicyViolation::BannedCrate { name, .. } if name == "evil-crate"));
}

#[test]
fn non_banned_crate_passes() {
    let mut config = default_config();
    config.banned_crates = vec!["evil-crate".to_string()];
    let packages = vec![cratesio_pkg("good-crate", "1.0.0", Some("MIT"))];
    let v = check_policies(&config, &packages);
    assert!(v.is_empty());
}

#[test]
fn allowed_license_passes() {
    let mut config = default_config();
    config.allowed_licenses = vec!["MIT".into(), "Apache-2.0".into()];
    let packages = vec![cratesio_pkg("serde", "1.0.0", Some("MIT OR Apache-2.0"))];
    let v = check_policies(&config, &packages);
    assert!(v.is_empty());
}

#[test]
fn disallowed_license_flagged() {
    let mut config = default_config();
    config.allowed_licenses = vec!["MIT".into()];
    let packages = vec![cratesio_pkg("gpl-crate", "1.0.0", Some("GPL-3.0"))];
    let v = check_policies(&config, &packages);
    assert_eq!(v.len(), 1);
    assert!(matches!(
        &v[0],
        PolicyViolation::DisallowedLicense { name, license, .. }
        if name == "gpl-crate" && license.as_deref() == Some("GPL-3.0")
    ));
}

#[test]
fn missing_license_flagged() {
    let mut config = default_config();
    config.allowed_licenses = vec!["MIT".into()];
    let packages = vec![cratesio_pkg("no-license", "1.0.0", None)];
    let v = check_policies(&config, &packages);
    assert_eq!(v.len(), 1);
    assert!(matches!(
        &v[0],
        PolicyViolation::DisallowedLicense { license, .. } if license.is_none()
    ));
}

#[test]
fn slash_license_expression_handled() {
    let mut config = default_config();
    config.allowed_licenses = vec!["MIT".into(), "Apache-2.0".into()];
    let packages = vec![cratesio_pkg("dual", "1.0.0", Some("MIT/Apache-2.0"))];
    let v = check_policies(&config, &packages);
    assert!(v.is_empty());
}

#[test]
fn empty_allowed_licenses_skips_check() {
    let mut config = default_config();
    config.allowed_licenses = Vec::new();
    let packages = vec![cratesio_pkg("anything", "1.0.0", Some("WTFPL"))];
    let v = check_policies(&config, &packages);
    assert!(v.is_empty());
}

#[test]
fn license_check_only_applies_to_cratesio() {
    let config = default_config();
    // git package with disallowed license -- should NOT be flagged by the
    // license check (git dep check is separate).
    let mut config_git_ok = config.clone();
    config_git_ok.allow_git_deps = true;
    let packages = vec![PackageInfo {
        name: "git-lib".to_string(),
        version: "0.1.0".to_string(),
        source: PackageSource::Git {
            url: "https://example.com".to_string(),
        },
        license: Some("GPL-3.0".to_string()),
        manifest_path: String::new(),
    }];
    let v = check_policies(&config_git_ok, &packages);
    assert!(v.is_empty());
}

#[test]
fn duplicates_exceeding_max_flagged() {
    let mut config = default_config();
    config.max_duplicate_versions = Some(1);
    let packages = vec![
        cratesio_pkg("syn", "1.0.109", Some("MIT")),
        cratesio_pkg("syn", "2.0.50", Some("MIT")),
    ];
    let v = check_policies(&config, &packages);
    assert_eq!(v.len(), 1);
    assert!(matches!(
        &v[0],
        PolicyViolation::DuplicateVersions { name, versions, max_allowed }
        if name == "syn" && versions.len() == 2 && *max_allowed == 1
    ));
}

#[test]
fn duplicates_within_limit_pass() {
    let mut config = default_config();
    config.max_duplicate_versions = Some(2);
    let packages = vec![
        cratesio_pkg("syn", "1.0.109", Some("MIT")),
        cratesio_pkg("syn", "2.0.50", Some("MIT")),
    ];
    let v = check_policies(&config, &packages);
    assert!(v.is_empty());
}

#[test]
fn display_git_dependency() {
    let v = PolicyViolation::GitDependency {
        name: "foo".to_string(),
        url: "https://github.com/foo/bar".to_string(),
    };
    assert_eq!(
        v.to_string(),
        "git dependency not allowed: foo (from https://github.com/foo/bar)"
    );
}

#[test]
fn display_path_dependency() {
    let v = PolicyViolation::PathDependency {
        name: "bar".to_string(),
        path: "../bar".to_string(),
    };
    assert_eq!(
        v.to_string(),
        "path dependency not allowed: bar (at ../bar)"
    );
}

#[test]
fn display_duplicate_versions() {
    let v = PolicyViolation::DuplicateVersions {
        name: "syn".to_string(),
        versions: vec!["1.0.109".to_string(), "2.0.50".to_string()],
        max_allowed: 1,
    };
    assert_eq!(
        v.to_string(),
        "too many versions of syn: found 2 (1.0.109, 2.0.50) but at most 1 allowed"
    );
}

#[test]
fn display_banned_crate() {
    let v = PolicyViolation::BannedCrate {
        name: "evil".to_string(),
        version: "0.1.0".to_string(),
    };
    assert_eq!(v.to_string(), "banned crate: evil v0.1.0");
}

#[test]
fn display_disallowed_license_some() {
    let v = PolicyViolation::DisallowedLicense {
        name: "gpl-lib".to_string(),
        version: "3.0.0".to_string(),
        license: Some("GPL-3.0".to_string()),
    };
    assert_eq!(
        v.to_string(),
        "license not allowed for gpl-lib v3.0.0: \"GPL-3.0\""
    );
}

#[test]
fn display_disallowed_license_none() {
    let v = PolicyViolation::DisallowedLicense {
        name: "mystery".to_string(),
        version: "1.0.0".to_string(),
        license: None,
    };
    assert_eq!(v.to_string(), "no license specified for mystery v1.0.0");
}

#[test]
fn accept_simple_license() {
    assert!(license_is_acceptable("MIT", &["MIT".to_string()]));
}

#[test]
fn reject_simple_license() {
    assert!(!license_is_acceptable("GPL-3.0", &["MIT".to_string()]));
}

#[test]
fn accept_or_expression() {
    let allowed = vec!["Apache-2.0".to_string()];
    assert!(license_is_acceptable("MIT OR Apache-2.0", &allowed));
}

#[test]
fn accept_slash_expression() {
    let allowed = vec!["Apache-2.0".to_string()];
    assert!(license_is_acceptable("MIT/Apache-2.0", &allowed));
}

#[test]
fn accept_mixed_or_and_slash() {
    let allowed = vec!["ISC".to_string()];
    assert!(license_is_acceptable("MIT OR BSD-3-Clause/ISC", &allowed));
}

#[test]
fn reject_when_no_component_matches() {
    let allowed = vec!["MIT".to_string()];
    assert!(!license_is_acceptable("GPL-3.0 OR LGPL-2.1", &allowed));
}

#[test]
fn multiple_violations_collected() {
    let mut config = default_config();
    config.banned_crates = vec!["evil".to_string()];
    config.allowed_licenses = vec!["MIT".into()];

    let packages = vec![
        git_pkg("git-dep", "https://example.com"),
        path_pkg("local-dep", "/tmp/lib"),
        cratesio_pkg("evil", "0.1.0", Some("MIT")),
        cratesio_pkg("no-lic", "1.0.0", None),
    ];

    let v = check_policies(&config, &packages);
    // Expect: GitDependency, PathDependency, BannedCrate, DisallowedLicense
    assert_eq!(v.len(), 4);
}

#[test]
fn violations_come_rule_by_rule() {
    let mut config = default_config();
    config.banned_crates = vec!["evil".to_string()];
    config.allowed_licenses = vec!["MIT".into()];
    config.max_duplicate_versions = Some(1);
    let packages = vec![
        cratesio_pkg("no-lic", "1.0.0", None),
        cratesio_pkg("evil", "0.1.0", Some("GPL-3.0")),
        path_pkg("local-dep", "/tmp/lib"),
        cratesio_pkg("evil", "0.2.0", Some("MIT")),
        git_pkg("evil", "https://example.com"),
    ];
    let messages: Vec<String> =
        check_policies(&config, &packages).iter().map(|v| v.to_string()).collect();
    assert_eq!(
        messages,
        vec![
            "git dependency not allowed: evil (from https://example.com)",
            "path dependency not allowed: local-dep (at /tmp/lib)",
            "too many versions of evil: found 2 (0.1.0, 0.2.0) but at most 1 allowed",
            "banned crate: evil v0.1.0",
            "banned crate: evil v0.2.0",
            "banned crate: evil v0.1.0",
            "no license specified for no-lic v1.0.0",
            "license not allowed for evil v0.1.0: \"GPL-3.0\"",
        ]
    );
}

#[test]
fn defaults_flag_only_sources() {
    let packages = vec![
        cratesio_pkg("a", "1.0.0", None),
        cratesio_pkg("a", "2.0.0", Some("WTFPL")),
        git_pkg("b", "https://example.com"),
        path_pkg("c", "../c"),
    ];
    let found = check_policies(&default_config(), &packages);
    assert_eq!(found.len(), 2);
    assert!(matches!(found[0], PolicyViolation::GitDependency { .. }));
    assert!(matches!(found[1], PolicyViolation::PathDependency { .. }));
}

#[test]
fn banned_crates_are_flagged_from_any_source() {
    let mut config = default_config();
    config.allow_git_deps = true;
    config.allow_path_deps = true;
    config.banned_crates = vec!["evil".to_string()];
    let packages = vec![
        git_pkg("evil", "https://example.com"),
        path_pkg("evil", "../evil"),
        cratesio_pkg("evil", "1.0.0", None),
    ];
    assert_eq!(check_policies(&config, &packages).len(), 3);
}

#[test]
fn a_limit_of_zero_still_needs_two_versions() {
    let mut config = default_config();
    config.max_duplicate_versions = Some(0);
    let mut packages = vec![cratesio_pkg("syn", "1.0.109", Some("MIT"))];
    assert!(check_policies(&config, &packages).is_empty());
    packages.push(cratesio_pkg("syn", "2.0.50", Some("MIT")));
    assert_eq!(check_policies(&config, &packages).len(), 1);
}

#[test]
fn licenses_of_other_sources_are_not_looked_at() {
    let mut config = default_config();
    config.allow_git_deps = true;
    config.allowed_licenses = vec!["ISC".into()];
    let packages = vec![git_pkg("git-lib", "https://example.com")];
    assert!(check_policies(&config, &packages).is_empty());
}

#[test]
fn dependencies_do_not_escape_by_their_address() {
    let resolved = |name: &str, source: &str| ResolvedPackage {
        id: name.to_string(),
        name: name.to_string(),
        version: "0.1.0".to_string(),
        source: Some(source.to_string()),
        license: None,
        manifest_path: String::new(),
    };
    let packages = third_party_packages(
        &[
            resolved("client", "git+https://github.com/foo/registry-client.git"),
            resolved("local", "path+file:///home/user/registry/local"),
        ],
        &[],
    );
    let messages: Vec<String> =
        check_policies(&default_config(), &packages).iter().map(|v| v.to_string()).collect();
    assert_eq!(
        messages,
        vec![
            "git dependency not allowed: client (from https://github.com/foo/registry-client.git)",
            "path dependency not allowed: local (at file:///home/user/registry/local)",
        ]
    );
}
