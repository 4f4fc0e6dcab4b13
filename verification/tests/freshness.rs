use escudo::config::{CrateException, EscudoConfig};
use escudo::freshness::{
    cooldown_for, check_freshness, find_version, is_valid_crate_name, CrateVersions,
    FreshnessViolation, VersionInfo,
};
use escudo::metadata::{PackageInfo, PackageSource};
use escudo::time::Timestamp;

const DAY: i64 = 86_400;
const NOW: i64 = 1_714_557_600;

fn at(secs: i64) -> Timestamp {
    Timestamp::new(secs, 0).unwrap()
}

fn package(name: &str, version: &str) -> PackageInfo {
    PackageInfo {
        name: name.to_string(),
        version: version.to_string(),
        source: PackageSource::CratesIo,
        license: None,
        manifest_path: String::new(),
    }
}

fn versions(name: &str, versions: &[(&str, i64)]) -> CrateVersions {
    CrateVersions {
        name: name.to_string(),
        versions: versions
            .iter()
            .map(|(num, secs)| VersionInfo { num: num.to_string(), created_at: at(*secs) })
            .collect(),
    }
}

fn exception(name: &str, days: u32) -> CrateException {
    CrateException { crate_name: name.to_string(), reason: "needed".to_string(), days }
}

fn fresh_names(config: &EscudoConfig, packages: &[PackageInfo], known: &[CrateVersions]) -> Vec<String> {
    check_freshness(config, packages, &at(NOW), known)
        .violations
        .into_iter()
        .map(|v| v.crate_name)
        .collect()
}

fn unverified_names(packages: &[PackageInfo], known: &[CrateVersions]) -> Vec<String> {
    check_freshness(&EscudoConfig::default(), packages, &at(NOW), known)
        .unverified
        .into_iter()
        .map(|v| v.crate_name)
        .collect()
}

#[test]
fn test_freshness_violation_fields() {
    let now = chrono::Utc::now();
    let v = FreshnessViolation {
        crate_name: "foo".to_string(),
        version: "0.1.0".to_string(),
        published: Timestamp::new(now.timestamp(), now.timestamp_subsec_nanos()).unwrap(),
        age_days: 2,
        cooldown_days: 7,
    };
    assert_eq!(v.crate_name, "foo");
    assert_eq!(v.age_days, 2);
    assert_eq!(v.cooldown_days, 7);
}

#[test]
fn crate_names() {
    for name in ["serde", "serde_json", "proc-macro2", "A", "0", &"a".repeat(64)] {
        assert!(is_valid_crate_name(name), "{name}");
    }
    for name in ["", "../evil", "a/b", "a.b", "a b", "é", "a\0", &"a".repeat(65), "a?x=1"] {
        assert!(!is_valid_crate_name(name), "{name}");
    }
}

#[test]
fn young_versions_are_flagged() {
    let packages = vec![package("serde", "1.0.0")];
    let known = vec![versions("serde", &[("0.9.0", NOW - 100 * DAY), ("1.0.0", NOW - 2 * DAY)])];
    let result = check_freshness(&EscudoConfig::default(), &packages, &at(NOW), &known);
    assert!(result.unverified.is_empty());
    assert_eq!(result.violations.len(), 1);
    let violation = &result.violations[0];
    assert_eq!(violation.crate_name, "serde");
    assert_eq!(violation.version, "1.0.0");
    assert_eq!(violation.published.secs(), NOW - 2 * DAY);
    assert_eq!(violation.age_days, 2);
    assert_eq!(violation.cooldown_days, 7);
}

#[test]
fn the_cooldown_ends_to_the_second() {
    let packages = vec![package("serde", "1.0.0")];
    let config = EscudoConfig::default();
    let young = vec![versions("serde", &[("1.0.0", NOW - 7 * DAY + 1)])];
    let old = vec![versions("serde", &[("1.0.0", NOW - 7 * DAY)])];
    assert_eq!(fresh_names(&config, &packages, &young), vec!["serde"]);
    assert!(fresh_names(&config, &packages, &old).is_empty());
}

#[test]
fn exceptions_set_the_cooldown() {
    let mut config = EscudoConfig::default();
    config.exceptions = vec![exception("tokio", 3), exception("tokio", 30), exception("old", 400)];
    assert_eq!(cooldown_for(&config, "tokio"), 3);
    assert_eq!(cooldown_for(&config, "old"), 400);
    assert_eq!(cooldown_for(&config, "serde"), 7);
    let packages = vec![package("tokio", "1.0.0"), package("old", "1.0.0")];
    let known = vec![
        versions("tokio", &[("1.0.0", NOW - 5 * DAY)]),
        versions("old", &[("1.0.0", NOW - 365 * DAY)]),
    ];
    assert_eq!(fresh_names(&config, &packages, &known), vec!["old"]);
}

#[test]
fn no_days_disable_the_check() {
    let mut config = EscudoConfig::default();
    config.exceptions = vec![exception("fastrand", 0)];
    let packages = vec![package("fastrand", "2.0.0")];
    let known = vec![versions("fastrand", &[("2.0.0", NOW)])];
    assert!(fresh_names(&config, &packages, &known).is_empty());
}

#[test]
fn missing_versions_are_unverified() {
    let packages = vec![package("serde", "1.0.1"), package("gone", "1.0.0")];
    let known = vec![versions("serde", &[("1.0.0", NOW - 100 * DAY)])];
    assert_eq!(unverified_names(&packages, &known), vec!["serde", "gone"]);
}

#[test]
fn future_dates_are_unverified() {
    let packages = vec![package("serde", "1.0.0")];
    let known = vec![versions("serde", &[("1.0.0", NOW + 1)])];
    assert_eq!(unverified_names(&packages, &known), vec!["serde"]);
    let known = vec![versions("serde", &[("1.0.0", NOW)])];
    assert!(unverified_names(&packages, &known).is_empty());
}

#[test]
fn other_sources_are_not_checked() {
    let mut local = package("local", "0.1.0");
    local.source = PackageSource::Path { path: "../local".to_string() };
    let mut forked = package("forked", "0.1.0");
    forked.source = PackageSource::Git { url: "https://example.com".to_string() };
    let mut unknown = package("unknown", "0.1.0");
    unknown.source = PackageSource::Unknown;
    let packages = vec![local, forked, unknown];
    assert!(unverified_names(&packages, &[]).is_empty());
    assert!(fresh_names(&EscudoConfig::default(), &packages, &[]).is_empty());
}

#[test]
fn a_longer_cooldown_flags_more() {
    let packages = vec![package("a", "1.0.0"), package("b", "1.0.0")];
    let known = vec![
        versions("a", &[("1.0.0", NOW - 5 * DAY)]),
        versions("b", &[("1.0.0", NOW - 20 * DAY)]),
    ];
    let mut config = EscudoConfig::default();
    assert_eq!(fresh_names(&config, &packages, &known), vec!["a"]);
    config.cooldown_days = 30;
    assert_eq!(fresh_names(&config, &packages, &known), vec!["a", "b"]);
}

#[test]
fn settled_versions_stay_settled() {
    let packages = vec![package("a", "1.0.0")];
    let known = vec![versions("a", &[("1.0.0", NOW - 7 * DAY)])];
    for secs in [NOW, NOW + 1, NOW + DAY, NOW + 1000 * DAY] {
        let result = check_freshness(&EscudoConfig::default(), &packages, &at(secs), &known);
        assert!(result.violations.is_empty() && result.unverified.is_empty());
    }
}

#[test]
fn verification_does_not_depend_on_the_cooldown() {
    let packages = vec![package("gone", "1.0.0"), package("a", "1.0.0")];
    let known = vec![versions("a", &[("1.0.0", NOW - DAY)])];
    for days in [0, 7, u32::MAX] {
        let mut config = EscudoConfig::default();
        config.cooldown_days = days;
        let result = check_freshness(&config, &packages, &at(NOW), &known);
        assert_eq!(result.unverified.len(), 1);
        assert_eq!(result.unverified[0].version, "1.0.0");
    }
}

#[test]
fn the_first_version_of_a_number_counts() {
    let crate_versions = versions("a", &[("1.0.0", 1), ("1.0.0", 2), ("2.0.0", 3)]);
    assert_eq!(find_version(&crate_versions.versions, "1.0.0").unwrap().created_at.secs(), 1);
    assert!(find_version(&crate_versions.versions, "3.0.0").is_none());
}
