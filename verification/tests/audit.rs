use escudo::audit::exception_warnings;
use escudo::config::{CrateException, EscudoConfig};
use escudo::error::Violation;
use escudo::freshness::{CrateVersions, VersionInfo};
use escudo::metadata::{PackageInfo, PackageSource};
use escudo::time::Timestamp;
use escudo::{check, CheckOptions};

const DAY: i64 = 86_400;
const NOW: i64 = 1_714_557_600;

fn at(secs: i64) -> Timestamp {
    Timestamp::new(secs, 0).unwrap()
}

fn package(name: &str, source: PackageSource) -> PackageInfo {
    PackageInfo {
        name: name.to_string(),
        version: "1.0.0".to_string(),
        source,
        license: Some("MIT".to_string()),
        manifest_path: String::new(),
    }
}

fn known(name: &str, secs: i64) -> CrateVersions {
    CrateVersions {
        name: name.to_string(),
        versions: vec![VersionInfo { num: "1.0.0".to_string(), created_at: at(secs) }],
    }
}

fn tree() -> Vec<PackageInfo> {
    vec![
        package("fork", PackageSource::Git { url: "https://example.com".to_string() }),
        package("gone", PackageSource::CratesIo),
        package("young", PackageSource::CratesIo),
        package("old", PackageSource::CratesIo),
    ]
}

fn answers() -> Vec<CrateVersions> {
    vec![known("young", NOW - DAY), known("old", NOW - 100 * DAY)]
}

fn skipping() -> CheckOptions<'static> {
    CheckOptions { manifest_path: None, skip_freshness: true }
}

#[test]
fn default_options() {
    let opts = CheckOptions::default();
    assert!(opts.manifest_path.is_none());
    assert!(!opts.skip_freshness);
}

#[test]
fn a_full_audit() {
    let report =
        check(&EscudoConfig::default(), &CheckOptions::default(), &tree(), &at(NOW), &answers());
    assert_eq!(report.packages_checked, 4);
    let messages: Vec<String> = report.violations.iter().map(|v| v.to_string()).collect();
    assert_eq!(
        messages,
        vec![
            "crate `young` v1.0.0 published only 1 days ago (cooldown: 7 days)",
            "could not verify gone v1.0.0 — version not found in crates.io API response",
            "git dependency not allowed: fork (from https://example.com)",
        ]
    );
}

#[test]
fn skipping_leaves_policy_violations_only() {
    for answers in [vec![], answers()] {
        let report = check(&EscudoConfig::default(), &skipping(), &tree(), &at(NOW), &answers);
        assert_eq!(report.violations.len(), 1);
        assert!(matches!(report.violations[0], Violation::Policy(_)));
        assert_eq!(report.packages_checked, 4);
    }
}

#[test]
fn a_clean_audit() {
    let packages = vec![package("old", PackageSource::CratesIo)];
    let report =
        check(&EscudoConfig::default(), &CheckOptions::default(), &packages, &at(NOW), &answers());
    assert!(report.is_clean());
    let empty = check(&EscudoConfig::default(), &CheckOptions::default(), &[], &at(NOW), &[]);
    assert!(empty.is_clean());
    assert_eq!(empty.packages_checked, 0);
}

#[test]
fn unverified_versions_fail_the_audit() {
    let packages = vec![package("gone", PackageSource::CratesIo)];
    let report =
        check(&EscudoConfig::default(), &CheckOptions::default(), &packages, &at(NOW), &[]);
    assert!(!report.is_clean());
}

#[test]
fn stale_exceptions() {
    let mut config = EscudoConfig::default();
    for name in ["old", "missing", "fork", "also-missing"] {
        config.exceptions.push(CrateException {
            crate_name: name.to_string(),
            reason: "needed".to_string(),
            days: 3,
        });
    }
    assert_eq!(
        exception_warnings(&config, &tree()),
        vec![
            "warning: exception for `missing` does not match any dependency",
            "warning: exception for `also-missing` does not match any dependency",
        ]
    );
    assert!(exception_warnings(&EscudoConfig::default(), &[]).is_empty());
}
