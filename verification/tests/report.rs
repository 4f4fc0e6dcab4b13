use escudo::error::Violation;
use escudo::freshness::FreshnessViolation;
use escudo::policy::PolicyViolation;
use escudo::report::{
    policy_kind, policy_kind_label, report_file_name, EscudoReport, FreshnessEntry,
    HtmlTemplateData, JsonReport, OutputFormat, Style,
};
use escudo::time::Timestamp;

fn text(t: &str) -> String {
    t.to_string()
}

fn fresh() -> Violation {
    Violation::Freshness(FreshnessViolation {
        crate_name: text("serde"),
        version: text("1.0.0"),
        published: Timestamp::new(1_714_557_600, 0).unwrap(),
        age_days: 2,
        cooldown_days: 7,
    })
}

fn policy() -> Violation {
    Violation::Policy(PolicyViolation::BannedCrate { name: text("evil"), version: text("0.1.0") })
}

fn unverified() -> Violation {
    Violation::Unverified { crate_name: text("gone"), version: text("3.0.0") }
}

fn report(violations: Vec<Violation>) -> EscudoReport {
    EscudoReport { violations, packages_checked: 42 }
}

fn plain(report: &EscudoReport) -> Vec<String> {
    report
        .human_lines()
        .into_iter()
        .map(|line| line.into_iter().map(|span| span.text).collect())
        .collect()
}

fn kinds() -> Vec<PolicyViolation> {
    vec![
        PolicyViolation::GitDependency { name: text("a"), url: text("u") },
        PolicyViolation::PathDependency { name: text("a"), path: text("p") },
        PolicyViolation::DuplicateVersions { name: text("a"), versions: vec![], max_allowed: 1 },
        PolicyViolation::BannedCrate { name: text("a"), version: text("1") },
        PolicyViolation::DisallowedLicense { name: text("a"), version: text("1"), license: None },
    ]
}

#[test]
fn kinds_for_machines_and_readers() {
    let machine: Vec<String> = kinds().iter().map(policy_kind).collect();
    assert_eq!(
        machine,
        vec![
            "git_dependency",
            "path_dependency",
            "duplicate_versions",
            "banned_crate",
            "disallowed_license",
        ]
    );
    let reader: Vec<String> = kinds().iter().map(policy_kind_label).collect();
    assert_eq!(reader, vec!["git dep", "path dep", "duplicates", "banned", "license"]);
}

#[test]
fn cleanness() {
    assert!(report(vec![]).is_clean());
    assert!(!report(vec![unverified()]).is_clean());
}

#[test]
fn a_clean_summary() {
    let lines = report(vec![]).human_lines();
    assert_eq!(
        plain(&report(vec![])),
        vec![
            "",
            "━━━ escudo supply chain audit ━━━",
            "  packages checked: 42",
            "",
            "  OK No violations found.",
            "",
        ]
    );
    assert_eq!(lines[1][0].style, Style::Bold);
    assert_eq!(lines[2][1].style, Style::Cyan);
    assert_eq!(lines[4][1].style, Style::BoldGreen);
}

#[test]
fn a_full_summary() {
    let full = report(vec![fresh(), policy(), unverified(), fresh()]);
    assert_eq!(
        plain(&full),
        vec![
            "",
            "━━━ escudo supply chain audit ━━━",
            "  packages checked: 42",
            "",
            "  FAIL Unverified crates (1):",
            "    - gone v3.0.0 — not found in crates.io API",
            "",
            "  WARN Freshness violations (2):",
            "    - serde v1.0.0 — published 2 days ago (cooldown: 7)",
            "    - serde v1.0.0 — published 2 days ago (cooldown: 7)",
            "",
            "  FAIL Policy violations (1):",
            "    - banned crate: evil v0.1.0",
            "",
            "  RESULT 4 violation(s) found.",
            "",
        ]
    );
    let lines = full.human_lines();
    assert_eq!(lines[4][1].style, Style::BoldRed);
    assert_eq!(lines[5][1].style, Style::Red);
    assert_eq!(lines[5][3].style, Style::Bold);
    assert_eq!(lines[7][1].style, Style::BoldYellow);
    assert_eq!(lines[14][1].style, Style::BoldRed);
}

#[test]
fn empty_sections_are_left_out() {
    assert_eq!(
        plain(&report(vec![policy()]))[4..],
        ["  FAIL Policy violations (1):", "    - banned crate: evil v0.1.0", "", "  RESULT 1 violation(s) found.", ""]
    );
}

#[test]
fn workflow_commands() {
    assert_eq!(
        report(vec![fresh(), policy(), unverified()]).github_lines(),
        vec![
            "::warning title=escudo: fresh crate::serde v1.0.0 published 2 days ago (cooldown: 7 days)",
            "::error title=escudo: policy violation::banned crate: evil v0.1.0",
            "::error title=escudo: unverified crate::gone v3.0.0 not found in crates.io API",
        ]
    );
    assert_eq!(
        report(vec![]).github_lines(),
        vec!["::notice title=escudo::All 42 packages passed supply chain checks."]
    );
}

#[test]
fn json_reports() {
    let json = JsonReport::from_report(&report(vec![fresh(), policy(), unverified(), policy()]));
    assert_eq!(json.packages_checked, 42);
    assert_eq!(json.violations_count, 4);
    assert!(!json.clean);
    assert_eq!(json.unverified_crates.len(), 1);
    assert_eq!(json.unverified_crates[0].crate_name, "gone");
    assert_eq!(json.unverified_crates[0].version, "3.0.0");
    assert_eq!(json.freshness_violations.len(), 1);
    assert_eq!(json.freshness_violations[0].published, "2024-05-01T10:00:00+00:00");
    assert_eq!(json.freshness_violations[0].age_days, 2);
    assert_eq!(json.freshness_violations[0].cooldown_days, 7);
    assert_eq!(json.policy_violations.len(), 2);
    assert_eq!(json.policy_violations[0].kind, "banned_crate");
    assert_eq!(json.policy_violations[0].message, "banned crate: evil v0.1.0");
    assert!(JsonReport::from_report(&report(vec![])).clean);
}

#[test]
fn html_reports() {
    let full = report(vec![fresh(), policy(), unverified()]);
    let html = HtmlTemplateData::from_report(
        &full,
        text("2024-05-03 12:00"),
        Some(text("demo")),
        text("0.1.3"),
    );
    assert_eq!(html.date, "2024-05-03 12:00");
    assert_eq!(html.project_name, "demo");
    assert_eq!(html.version, "0.1.3");
    assert_eq!(html.packages_checked, 42);
    assert_eq!(html.violations_count, 3);
    assert!(html.violations_plural);
    assert!(!html.clean);
    assert_eq!((html.unverified_count, html.freshness_count, html.policy_count), (1, 1, 1));
    assert_eq!(html.freshness_violations[0].published, "2024-05-01 10:00 UTC");
    assert_eq!(html.policy_violations[0].kind, "banned");
    assert_eq!(html.unverified_crates[0].crate_name, "gone");
}

#[test]
fn html_reports_of_few_violations() {
    let one = HtmlTemplateData::from_report(&report(vec![fresh()]), text(""), None, text(""));
    assert_eq!(one.project_name, "unknown");
    assert!(!one.violations_plural);
    let none = HtmlTemplateData::from_report(&report(vec![]), text(""), None, text(""));
    assert!(none.violations_plural && none.clean);
}

#[test]
fn report_files() {
    assert_eq!(report_file_name("20240501-100000"), "escudo-report-20240501-100000.html");
}

#[test]
fn formats_are_compared() {
    assert_eq!(OutputFormat::Html, OutputFormat::Html);
    assert_ne!(OutputFormat::Html, OutputFormat::Json);
}

#[test]
fn entries_take_the_date_as_it_is_written() {
    let violation = FreshnessViolation {
        crate_name: text("serde"),
        version: text("1.0.0"),
        published: Timestamp::new(0, 0).unwrap(),
        age_days: 2,
        cooldown_days: 7,
    };
    let entry = FreshnessEntry::with_date(&violation, text("today"));
    assert_eq!((entry.crate_name.as_str(), entry.version.as_str()), ("serde", "1.0.0"));
    assert_eq!(entry.published, "today");
    assert_eq!((entry.age_days, entry.cooldown_days), (2, 7));
}
