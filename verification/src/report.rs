//! The report of an audit, and its renderings.

use vstd::prelude::*;

use crate::error::{Violation, ViolationView};
use crate::freshness::{
    FreshnessViolation, FreshnessViolationView, UnverifiedCrate, UnverifiedCrateView,
};
use crate::numeral::{decimal, decimal_text, signed_decimal, signed_decimal_text};
use crate::policy::{policy_message, rule_of, PolicyViolation, PolicyViolationView};
use crate::select::{
    select, select_ends, select_goes_part_by_part, select_holds, select_members, select_of_one,
    select_step,
};
use crate::text::{contains_text, parts_are_contained};
use crate::time::{formatted_date, rfc3339, Instant};

verus! {

/// Output format for the report.
#[derive(Debug, Clone, Copy, PartialEq, Eq)]
pub enum OutputFormat {
    /// Human-readable with ANSI colors (default).
    Human,
    /// Machine-readable JSON.
    Json,
    /// GitHub Actions workflow commands (`::warning::`, `::error::`).
    Github,
    /// Self-contained HTML file.
    Html,
}

/// The complete result of an escudo audit run.
#[derive(Debug, Clone)]
pub struct EscudoReport {
    pub violations: Vec<Violation>,
    pub packages_checked: usize,
}

/// Model of an [`EscudoReport`].
pub struct EscudoReportView {
    pub violations: Seq<ViolationView>,
    pub packages_checked: nat,
}

impl DeepView for EscudoReport {
    type V = EscudoReportView;

    open spec fn deep_view(&self) -> EscudoReportView {
        EscudoReportView {
            violations: self.violations.deep_view(),
            packages_checked: self.packages_checked as nat,
        }
    }
}

impl EscudoReportView {
    /// The audit found no violations.
    pub open spec fn clean(self) -> bool {
        self.violations.len() == 0
    }
}

/// The kind of a policy violation, for machines.
pub open spec fn kind_of(violation: PolicyViolationView) -> Seq<char> {
    match violation {
        PolicyViolationView::GitDependency { .. } => "git_dependency"@,
        PolicyViolationView::PathDependency { .. } => "path_dependency"@,
        PolicyViolationView::DuplicateVersions { .. } => "duplicate_versions"@,
        PolicyViolationView::BannedCrate { .. } => "banned_crate"@,
        PolicyViolationView::DisallowedLicense { .. } => "disallowed_license"@,
    }
}

/// The kind of a policy violation, for readers.
pub open spec fn label_of(violation: PolicyViolationView) -> Seq<char> {
    match violation {
        PolicyViolationView::GitDependency { .. } => "git dep"@,
        PolicyViolationView::PathDependency { .. } => "path dep"@,
        PolicyViolationView::DuplicateVersions { .. } => "duplicates"@,
        PolicyViolationView::BannedCrate { .. } => "banned"@,
        PolicyViolationView::DisallowedLicense { .. } => "license"@,
    }
}

/// The kind of a policy violation, for machines.
pub fn policy_kind(v: &PolicyViolation) -> (kind: String)
    ensures
        kind@ == kind_of(v.deep_view()),
{
    match v {
        PolicyViolation::GitDependency { .. } => "git_dependency".to_owned(),
        PolicyViolation::PathDependency { .. } => "path_dependency".to_owned(),
        PolicyViolation::DuplicateVersions { .. } => "duplicate_versions".to_owned(),
        PolicyViolation::BannedCrate { .. } => "banned_crate".to_owned(),
        PolicyViolation::DisallowedLicense { .. } => "disallowed_license".to_owned(),
    }
}

/// The kind of a policy violation, for readers.
pub fn policy_kind_label(v: &PolicyViolation) -> (label: String)
    ensures
        label@ == label_of(v.deep_view()),
{
    match v {
        PolicyViolation::GitDependency { .. } => "git dep".to_owned(),
        PolicyViolation::PathDependency { .. } => "path dep".to_owned(),
        PolicyViolation::DuplicateVersions { .. } => "duplicates".to_owned(),
        PolicyViolation::BannedCrate { .. } => "banned".to_owned(),
        PolicyViolation::DisallowedLicense { .. } => "license".to_owned(),
    }
}

/// Whom the entries of a report are written for.
#[derive(Debug, Clone, Copy)]
pub enum Audience {
    /// Programs that read JSON.
    Machine,
    /// Readers of a page.
    Reader,
}

/// A freshness violation in a report.
#[derive(Debug, Clone)]
pub struct FreshnessEntry {
    pub crate_name: String,
    pub version: String,
    pub published: String,
    pub age_days: i64,
    pub cooldown_days: u32,
}

/// A policy violation in a report.
#[derive(Debug, Clone)]
pub struct PolicyEntry {
    pub kind: String,
    pub message: String,
}

/// Model of a [`FreshnessEntry`].
pub struct FreshnessEntryView {
    pub crate_name: Seq<char>,
    pub version: Seq<char>,
    pub published: Seq<char>,
    pub age_days: int,
    pub cooldown_days: u32,
}

/// Model of a [`PolicyEntry`].
pub struct PolicyEntryView {
    pub kind: Seq<char>,
    pub message: Seq<char>,
}

impl DeepView for FreshnessEntry {
    type V = FreshnessEntryView;

    open spec fn deep_view(&self) -> FreshnessEntryView {
        FreshnessEntryView {
            crate_name: self.crate_name@,
            version: self.version@,
            published: self.published@,
            age_days: self.age_days as int,
            cooldown_days: self.cooldown_days,
        }
    }
}

impl DeepView for PolicyEntry {
    type V = PolicyEntryView;

    open spec fn deep_view(&self) -> PolicyEntryView {
        PolicyEntryView { kind: self.kind@, message: self.message@ }
    }
}

/// How a publish date is written.
pub open spec fn date_for(audience: Audience, published: Instant) -> Seq<char> {
    match audience {
        Audience::Machine => rfc3339(published.secs, published.nanos),
        Audience::Reader => formatted_date(
            published.secs,
            published.nanos,
            "%Y-%m-%d %H:%M UTC"@,
        ),
    }
}

/// How the kind of a policy violation is written.
pub open spec fn kind_for(audience: Audience, violation: PolicyViolationView) -> Seq<char> {
    match audience {
        Audience::Machine => kind_of(violation),
        Audience::Reader => label_of(violation),
    }
}

/// The violation is about a version that could not be verified.
pub open spec fn about_unverified() -> spec_fn(ViolationView) -> bool {
    |violation: ViolationView| violation is Unverified
}

/// The violation is about a version that is too fresh.
pub open spec fn about_freshness() -> spec_fn(ViolationView) -> bool {
    |violation: ViolationView| violation is Freshness
}

/// The violation is about a policy rule.
pub open spec fn about_policy() -> spec_fn(ViolationView) -> bool {
    |violation: ViolationView| violation is Policy
}

/// The entry for a version that could not be verified.
pub open spec fn to_unverified_entry() -> spec_fn(ViolationView) -> UnverifiedCrateView {
    |violation: ViolationView|
        UnverifiedCrateView {
            crate_name: violation->crate_name,
            version: violation->Unverified_version,
        }
}

/// The entry for a version that is too fresh, with its publish date as it is
/// written.
pub open spec fn dated(
    violation: FreshnessViolationView,
    published: Seq<char>,
) -> FreshnessEntryView {
    FreshnessEntryView {
        crate_name: violation.crate_name,
        version: violation.version,
        published,
        age_days: violation.age_days,
        cooldown_days: violation.cooldown_days,
    }
}

/// The entry for a version that is too fresh.
pub open spec fn to_freshness_entry(audience: Audience) -> spec_fn(
    ViolationView,
) -> FreshnessEntryView {
    |violation: ViolationView|
        dated(
            violation->Freshness_0,
            date_for(audience, violation->Freshness_0.published),
        )
}

/// The entry for a broken policy rule.
pub open spec fn to_policy_entry(audience: Audience) -> spec_fn(ViolationView) -> PolicyEntryView {
    |violation: ViolationView|
        PolicyEntryView {
            kind: kind_for(audience, violation->Policy_0),
            message: policy_message(violation->Policy_0),
        }
}

/// The violations of a report, sorted into lists.
pub struct Entries {
    pub unverified: Vec<UnverifiedCrate>,
    pub freshness: Vec<FreshnessEntry>,
    pub policy: Vec<PolicyEntry>,
}

/// Model of [`Entries`].
pub struct EntriesView {
    pub unverified: Seq<UnverifiedCrateView>,
    pub freshness: Seq<FreshnessEntryView>,
    pub policy: Seq<PolicyEntryView>,
}

impl DeepView for Entries {
    type V = EntriesView;

    open spec fn deep_view(&self) -> EntriesView {
        EntriesView {
            unverified: self.unverified.deep_view(),
            freshness: self.freshness.deep_view(),
            policy: self.policy.deep_view(),
        }
    }
}

/// The lists for the given audience.
pub open spec fn entries_for(audience: Audience, violations: Seq<ViolationView>) -> EntriesView {
    EntriesView {
        unverified: select(violations, about_unverified(), to_unverified_entry()),
        freshness: select(violations, about_freshness(), to_freshness_entry(audience)),
        policy: select(violations, about_policy(), to_policy_entry(audience)),
    }
}

impl FreshnessEntry {
    /// The entry for a version that is too fresh, with its publish date as it
    /// is written.
    pub fn with_date(violation: &FreshnessViolation, published: String) -> (entry: FreshnessEntry)
        ensures
            entry.deep_view() == dated(violation.deep_view(), published@),
    {
        FreshnessEntry {
            crate_name: violation.crate_name.clone(),
            version: violation.version.clone(),
            published,
            age_days: violation.age_days,
            cooldown_days: violation.cooldown_days,
        }
    }
}

/// Writes the entry for a version that is too fresh.
fn freshness_entry(audience: Audience, f: &FreshnessViolation) -> (entry: FreshnessEntry)
    ensures
        entry.deep_view() == to_freshness_entry(audience)(ViolationView::Freshness(f.deep_view())),
{
    let published = match audience {
        Audience::Machine => f.published.to_rfc3339(),
        Audience::Reader => f.published.to_report_date(),
    };
    FreshnessEntry::with_date(f, published)
}

/// Writes the entry for a broken policy rule.
fn policy_entry(audience: Audience, p: &PolicyViolation) -> (entry: PolicyEntry)
    ensures
        entry.deep_view() == to_policy_entry(audience)(ViolationView::Policy(p.deep_view())),
{
    let kind = match audience {
        Audience::Machine => policy_kind(p),
        Audience::Reader => policy_kind_label(p),
    };
    PolicyEntry { kind, message: p.to_string() }
}

/// Sort the violations into lists, for the given audience.
pub fn sort_entries(audience: Audience, violations: &[Violation]) -> (entries: Entries)
    ensures
        entries.deep_view() == entries_for(audience, violations.deep_view()),
{
    let ghost all = violations.deep_view();
    let mut unverified: Vec<UnverifiedCrate> = Vec::new();
    let mut freshness: Vec<FreshnessEntry> = Vec::new();
    let mut policy: Vec<PolicyEntry> = Vec::new();
    proof {
        select_ends(all, about_unverified(), to_unverified_entry());
        select_ends(all, about_freshness(), to_freshness_entry(audience));
        select_ends(all, about_policy(), to_policy_entry(audience));
    }
    let mut i: usize = 0;
    while i < violations.len()
        invariant
            i <= violations@.len(),
            all == violations.deep_view(),
            unverified.deep_view() == select(
                all.take(i as int),
                about_unverified(),
                to_unverified_entry(),
            ),
            freshness.deep_view() == select(
                all.take(i as int),
                about_freshness(),
                to_freshness_entry(audience),
            ),
            policy.deep_view() == select(
                all.take(i as int),
                about_policy(),
                to_policy_entry(audience),
            ),
        decreases violations@.len() - i,
    {
        let ghost unverified_so_far = unverified.deep_view();
        let ghost freshness_so_far = freshness.deep_view();
        let ghost policy_so_far = policy.deep_view();
        proof {
            select_step(all, about_unverified(), to_unverified_entry(), i as int);
            select_step(all, about_freshness(), to_freshness_entry(audience), i as int);
            select_step(all, about_policy(), to_policy_entry(audience), i as int);
            assert(all[i as int] == violations@[i as int].deep_view());
        }
        match &violations[i] {
            Violation::Unverified { crate_name, version } => {
                let entry = UnverifiedCrate {
                    crate_name: crate_name.clone(),
                    version: version.clone(),
                };
                unverified.push(entry);
                assert(unverified.deep_view() =~= unverified_so_far.push(entry.deep_view()));
            },
            Violation::Freshness(f) => {
                let entry = freshness_entry(audience, f);
                freshness.push(entry);
                assert(freshness.deep_view() =~= freshness_so_far.push(entry.deep_view()));
            },
            Violation::Policy(p) => {
                let entry = policy_entry(audience, p);
                policy.push(entry);
                assert(policy.deep_view() =~= policy_so_far.push(entry.deep_view()));
            },
        }
        i = i + 1;
    }
    Entries { unverified, freshness, policy }
}

/// The report as JSON holds it.
pub struct JsonReport {
    pub packages_checked: usize,
    pub violations_count: usize,
    pub clean: bool,
    pub unverified_crates: Vec<UnverifiedCrate>,
    pub freshness_violations: Vec<FreshnessEntry>,
    pub policy_violations: Vec<PolicyEntry>,
}

/// The report as the HTML page shows it.
pub struct HtmlTemplateData {
    pub date: String,
    pub project_name: String,
    pub version: String,
    pub packages_checked: usize,
    pub violations_count: usize,
    pub violations_plural: bool,
    pub clean: bool,
    pub unverified_count: usize,
    pub freshness_count: usize,
    pub policy_count: usize,
    pub unverified_crates: Vec<UnverifiedCrate>,
    pub freshness_violations: Vec<FreshnessEntry>,
    pub policy_violations: Vec<PolicyEntry>,
}

/// Model of a [`JsonReport`].
pub struct JsonReportView {
    pub packages_checked: nat,
    pub violations_count: nat,
    pub clean: bool,
    pub unverified_crates: Seq<UnverifiedCrateView>,
    pub freshness_violations: Seq<FreshnessEntryView>,
    pub policy_violations: Seq<PolicyEntryView>,
}

/// Model of [`HtmlTemplateData`].
pub struct HtmlTemplateDataView {
    pub date: Seq<char>,
    pub project_name: Seq<char>,
    pub version: Seq<char>,
    pub packages_checked: nat,
    pub violations_count: nat,
    pub violations_plural: bool,
    pub clean: bool,
    pub unverified_count: nat,
    pub freshness_count: nat,
    pub policy_count: nat,
    pub unverified_crates: Seq<UnverifiedCrateView>,
    pub freshness_violations: Seq<FreshnessEntryView>,
    pub policy_violations: Seq<PolicyEntryView>,
}

impl DeepView for JsonReport {
    type V = JsonReportView;

    open spec fn deep_view(&self) -> JsonReportView {
        JsonReportView {
            packages_checked: self.packages_checked as nat,
            violations_count: self.violations_count as nat,
            clean: self.clean,
            unverified_crates: self.unverified_crates.deep_view(),
            freshness_violations: self.freshness_violations.deep_view(),
            policy_violations: self.policy_violations.deep_view(),
        }
    }
}

impl DeepView for HtmlTemplateData {
    type V = HtmlTemplateDataView;

    open spec fn deep_view(&self) -> HtmlTemplateDataView {
        HtmlTemplateDataView {
            date: self.date@,
            project_name: self.project_name@,
            version: self.version@,
            packages_checked: self.packages_checked as nat,
            violations_count: self.violations_count as nat,
            violations_plural: self.violations_plural,
            clean: self.clean,
            unverified_count: self.unverified_count as nat,
            freshness_count: self.freshness_count as nat,
            policy_count: self.policy_count as nat,
            unverified_crates: self.unverified_crates.deep_view(),
            freshness_violations: self.freshness_violations.deep_view(),
            policy_violations: self.policy_violations.deep_view(),
        }
    }
}

/// What JSON holds of a report.
pub open spec fn json_of(report: EscudoReportView) -> JsonReportView {
    let entries = entries_for(Audience::Machine, report.violations);
    JsonReportView {
        packages_checked: report.packages_checked,
        violations_count: report.violations.len(),
        clean: report.clean(),
        unverified_crates: entries.unverified,
        freshness_violations: entries.freshness,
        policy_violations: entries.policy,
    }
}

/// What the HTML page shows of a report.
pub open spec fn html_of(
    report: EscudoReportView,
    date: Seq<char>,
    project_name: Option<Seq<char>>,
    version: Seq<char>,
) -> HtmlTemplateDataView {
    let entries = entries_for(Audience::Reader, report.violations);
    HtmlTemplateDataView {
        date,
        project_name: match project_name {
            Some(name) => name,
            None => "unknown"@,
        },
        version,
        packages_checked: report.packages_checked,
        violations_count: report.violations.len(),
        violations_plural: report.violations.len() != 1,
        clean: report.clean(),
        unverified_count: entries.unverified.len(),
        freshness_count: entries.freshness.len(),
        policy_count: entries.policy.len(),
        unverified_crates: entries.unverified,
        freshness_violations: entries.freshness,
        policy_violations: entries.policy,
    }
}

impl JsonReport {
    /// The report as JSON holds it.
    pub fn from_report(report: &EscudoReport) -> (json: JsonReport)
        ensures
            json.packages_checked == report.packages_checked,
            json.violations_count == report.violations@.len(),
            json.clean == report.deep_view().clean(),
            (EntriesView {
                unverified: json.unverified_crates.deep_view(),
                freshness: json.freshness_violations.deep_view(),
                policy: json.policy_violations.deep_view(),
            }) == entries_for(Audience::Machine, report.deep_view().violations),
            json.deep_view() == json_of(report.deep_view()),
    {
        let entries = sort_entries(Audience::Machine, report.violations.as_slice());
        JsonReport {
            packages_checked: report.packages_checked,
            violations_count: report.violations.len(),
            clean: report.is_clean(),
            unverified_crates: entries.unverified,
            freshness_violations: entries.freshness,
            policy_violations: entries.policy,
        }
    }
}

impl HtmlTemplateData {
    /// The report as the HTML page shows it. A project without a name is
    /// called "unknown".
    pub fn from_report(
        report: &EscudoReport,
        date: String,
        project_name: Option<String>,
        version: String,
    ) -> (html: HtmlTemplateData)
        ensures
            html.date@ == date@,
            html.project_name@ == (match project_name {
                Some(name) => name@,
                None => "unknown"@,
            }),
            html.version@ == version@,
            html.packages_checked == report.packages_checked,
            html.violations_count == report.violations@.len(),
            html.violations_plural == (report.violations@.len() != 1),
            html.clean == report.deep_view().clean(),
            html.unverified_count == html.unverified_crates@.len(),
            html.freshness_count == html.freshness_violations@.len(),
            html.policy_count == html.policy_violations@.len(),
            (EntriesView {
                unverified: html.unverified_crates.deep_view(),
                freshness: html.freshness_violations.deep_view(),
                policy: html.policy_violations.deep_view(),
            }) == entries_for(Audience::Reader, report.deep_view().violations),
            html.deep_view() == html_of(
                report.deep_view(),
                date@,
                project_name.deep_view(),
                version@,
            ),
    {
        let entries = sort_entries(Audience::Reader, report.violations.as_slice());
        let project_name = match project_name {
            Some(name) => name,
            None => "unknown".to_owned(),
        };
        HtmlTemplateData {
            date,
            project_name,
            version,
            packages_checked: report.packages_checked,
            violations_count: report.violations.len(),
            violations_plural: report.violations.len() != 1,
            clean: report.is_clean(),
            unverified_count: entries.unverified.len(),
            freshness_count: entries.freshness.len(),
            policy_count: entries.policy.len(),
            unverified_crates: entries.unverified,
            freshness_violations: entries.freshness,
            policy_violations: entries.policy,
        }
    }
}

/// The workflow command for a violation.
pub open spec fn github_command(violation: ViolationView) -> Seq<char> {
    match violation {
        ViolationView::Freshness(f) => "::warning title=escudo: fresh crate::"@ + f.crate_name
            + " v"@ + f.version + " published "@ + signed_decimal(f.age_days)
            + " days ago (cooldown: "@ + decimal(f.cooldown_days as nat) + " days)"@,
        ViolationView::Policy(p) => "::error title=escudo: policy violation::"@ + policy_message(p),
        ViolationView::Unverified { crate_name, version } =>
            "::error title=escudo: unverified crate::"@ + crate_name + " v"@ + version
            + " not found in crates.io API"@,
    }
}

/// `github_command` as a value.
pub open spec fn to_github_command() -> spec_fn(ViolationView) -> Seq<char> {
    |violation: ViolationView| github_command(violation)
}

/// The workflow command that says that all is well.
pub open spec fn github_notice(packages_checked: nat) -> Seq<char> {
    "::notice title=escudo::All "@ + decimal(packages_checked)
        + " packages passed supply chain checks."@
}

/// The workflow commands for a report.
pub open spec fn github_commands(report: EscudoReportView) -> Seq<Seq<char>> {
    if report.clean() {
        seq![github_notice(report.packages_checked)]
    } else {
        report.violations.map_values(to_github_command())
    }
}

/// Writes the workflow command for a violation.
fn github_line(violation: &Violation) -> (line: String)
    ensures
        line@ == github_command(violation.deep_view()),
{
    match violation {
        Violation::Freshness(f) => {
            let mut m = "::warning title=escudo: fresh crate::".to_owned();
            m.append(f.crate_name.as_str());
            m.append(" v");
            m.append(f.version.as_str());
            m.append(" published ");
            m.append(signed_decimal_text(f.age_days).as_str());
            m.append(" days ago (cooldown: ");
            m.append(decimal_text(f.cooldown_days as u128).as_str());
            m.append(" days)");
            m
        },
        Violation::Policy(p) => {
            let mut m = "::error title=escudo: policy violation::".to_owned();
            m.append(p.to_string().as_str());
            m
        },
        Violation::Unverified { crate_name, version } => {
            let mut m = "::error title=escudo: unverified crate::".to_owned();
            m.append(crate_name.as_str());
            m.append(" v");
            m.append(version.as_str());
            m.append(" not found in crates.io API");
            m
        },
    }
}

impl EscudoReport {
    /// Returns `true` when the audit found no violations.
    pub fn is_clean(&self) -> (clean: bool)
        ensures
            clean == self.deep_view().clean(),
    {
        self.violations.is_empty()
    }

    /// The GitHub Actions workflow commands, line by line.
    pub fn github_lines(&self) -> (lines: Vec<String>)
        ensures
            lines.deep_view() == github_commands(self.deep_view()),
    {
        let ghost all = self.violations.deep_view();
        let mut lines: Vec<String> = Vec::new();
        if self.is_clean() {
            let mut notice = "::notice title=escudo::All ".to_owned();
            notice.append(decimal_text(self.packages_checked as u128).as_str());
            notice.append(" packages passed supply chain checks.");
            lines.push(notice);
            assert(lines.deep_view() =~= seq![github_notice(self.packages_checked as nat)]);
            return lines;
        }
        let mut i: usize = 0;
        while i < self.violations.len()
            invariant
                i <= self.violations@.len(),
                all == self.violations.deep_view(),
                lines.deep_view() == all.take(i as int).map_values(to_github_command()),
            decreases self.violations@.len() - i,
        {
            let ghost so_far = lines.deep_view();
            let line = github_line(&self.violations[i]);
            lines.push(line);
            assert(lines.deep_view() =~= so_far.push(line@));
            assert(all.take(i + 1).map_values(to_github_command()) =~= so_far.push(line@));
            i = i + 1;
        }
        assert(all.take(i as int) =~= all);
        lines
    }
}

/// How a piece of text stands out.
#[derive(Debug, Clone, Copy, PartialEq, Eq)]
pub enum Style {
    Plain,
    Bold,
    Cyan,
    Red,
    BoldGreen,
    BoldRed,
    BoldYellow,
}

/// A piece of a line, in one style.
#[derive(Debug, Clone)]
pub struct Span {
    pub text: String,
    pub style: Style,
}

/// Model of a [`Span`].
pub struct SpanView {
    pub text: Seq<char>,
    pub style: Style,
}

impl DeepView for Span {
    type V = SpanView;

    open spec fn deep_view(&self) -> SpanView {
        SpanView { text: self.text@, style: self.style }
    }
}

/// A span in the given style.
pub open spec fn span(text: Seq<char>, style: Style) -> SpanView {
    SpanView { text, style }
}

/// The line of a version that could not be verified.
pub open spec fn to_unverified_line() -> spec_fn(ViolationView) -> Seq<SpanView> {
    |violation: ViolationView|
        seq![
            span("    "@, Style::Plain),
            span("-"@, Style::Red),
            span(" "@, Style::Plain),
            span(violation->crate_name, Style::Bold),
            span(
                " v"@ + violation->Unverified_version + " — not found in crates.io API"@,
                Style::Plain,
            ),
        ]
}

/// The line of a version that is too fresh.
pub open spec fn to_freshness_line() -> spec_fn(ViolationView) -> Seq<SpanView> {
    |violation: ViolationView|
        seq![
            span("    "@, Style::Plain),
            span("-"@, Style::Red),
            span(" "@, Style::Plain),
            span(violation->Freshness_0.crate_name, Style::Bold),
            span(
                " v"@ + violation->Freshness_0.version + " — published "@ + signed_decimal(
                    violation->Freshness_0.age_days,
                ) + " days ago (cooldown: "@ + decimal(
                    violation->Freshness_0.cooldown_days as nat,
                ) + ")"@,
                Style::Plain,
            ),
        ]
}

/// The line of a broken policy rule.
pub open spec fn to_policy_line() -> spec_fn(ViolationView) -> Seq<SpanView> {
    |violation: ViolationView|
        seq![
            span("    "@, Style::Plain),
            span("-"@, Style::Red),
            span(" "@ + policy_message(violation->Policy_0), Style::Plain),
        ]
}

/// The heading of a section with `count` lines.
pub open spec fn heading(
    label: Seq<char>,
    style: Style,
    title: Seq<char>,
    count: nat,
) -> Seq<SpanView> {
    seq![
        span("  "@, Style::Plain),
        span(label, style),
        span(" "@ + title + " ("@ + decimal(count) + "):"@, Style::Plain),
    ]
}

/// A section: its heading, its lines and a blank line. A section without lines
/// is left out.
pub open spec fn section(
    label: Seq<char>,
    style: Style,
    title: Seq<char>,
    lines: Seq<Seq<SpanView>>,
) -> Seq<Seq<SpanView>> {
    if lines.len() == 0 {
        Seq::empty()
    } else {
        seq![heading(label, style, title, lines.len())] + lines + seq![Seq::empty()]
    }
}

/// The first lines of the summary.
pub open spec fn summary_head(packages_checked: nat) -> Seq<Seq<SpanView>> {
    seq![
        Seq::empty(),
        seq![span("━━━ escudo supply chain audit ━━━"@, Style::Bold)],
        seq![
            span("  packages checked: "@, Style::Plain),
            span(decimal(packages_checked), Style::Cyan),
        ],
        Seq::empty(),
    ]
}

/// The last lines of the summary where nothing was found.
pub open spec fn summary_clean() -> Seq<Seq<SpanView>> {
    seq![
        seq![
            span("  "@, Style::Plain),
            span("OK"@, Style::BoldGreen),
            span(" No violations found."@, Style::Plain),
        ],
        Seq::empty(),
    ]
}

/// The last lines of the summary where something was found.
pub open spec fn summary_result(violations: nat) -> Seq<Seq<SpanView>> {
    seq![
        seq![
            span("  "@, Style::Plain),
            span("RESULT"@, Style::BoldRed),
            span(" "@ + decimal(violations) + " violation(s) found."@, Style::Plain),
        ],
        Seq::empty(),
    ]
}

/// The summary of a report for a terminal, line by line.
pub open spec fn summary(report: EscudoReportView) -> Seq<Seq<SpanView>> {
    let violations = report.violations;
    let head = summary_head(report.packages_checked);
    if report.clean() {
        head + summary_clean()
    } else {
        head + section(
            "FAIL"@,
            Style::BoldRed,
            "Unverified crates"@,
            select(violations, about_unverified(), to_unverified_line()),
        ) + section(
            "WARN"@,
            Style::BoldYellow,
            "Freshness violations"@,
            select(violations, about_freshness(), to_freshness_line()),
        ) + section(
            "FAIL"@,
            Style::BoldRed,
            "Policy violations"@,
            select(violations, about_policy(), to_policy_line()),
        ) + summary_result(violations.len())
    }
}

/// A span in the given style.
fn styled(text: String, style: Style) -> (s: Span)
    ensures
        s.deep_view() == span(text@, style),
{
    Span { text, style }
}

/// A span of fixed text.
fn fixed(text: &str, style: Style) -> (s: Span)
    ensures
        s.deep_view() == span(text@, style),
{
    Span { text: text.to_owned(), style }
}

/// Writes the line of a version that could not be verified.
fn unverified_line(crate_name: &String, version: &String) -> (line: Vec<Span>)
    ensures
        line.deep_view() == to_unverified_line()(
            ViolationView::Unverified { crate_name: crate_name@, version: version@ },
        ),
{
    let mut rest = " v".to_owned();
    rest.append(version.as_str());
    rest.append(" — not found in crates.io API");
    let line = vec![
        fixed("    ", Style::Plain),
        fixed("-", Style::Red),
        fixed(" ", Style::Plain),
        styled(crate_name.clone(), Style::Bold),
        styled(rest, Style::Plain),
    ];
    assert(line.deep_view() =~= to_unverified_line()(
        ViolationView::Unverified { crate_name: crate_name@, version: version@ },
    ));
    line
}

/// Writes the line of a version that is too fresh.
fn freshness_line(f: &FreshnessViolation) -> (line: Vec<Span>)
    ensures
        line.deep_view() == to_freshness_line()(ViolationView::Freshness(f.deep_view())),
{
    let mut rest = " v".to_owned();
    rest.append(f.version.as_str());
    rest.append(" — published ");
    rest.append(signed_decimal_text(f.age_days).as_str());
    rest.append(" days ago (cooldown: ");
    rest.append(decimal_text(f.cooldown_days as u128).as_str());
    rest.append(")");
    let line = vec![
        fixed("    ", Style::Plain),
        fixed("-", Style::Red),
        fixed(" ", Style::Plain),
        styled(f.crate_name.clone(), Style::Bold),
        styled(rest, Style::Plain),
    ];
    assert(line.deep_view() =~= to_freshness_line()(ViolationView::Freshness(f.deep_view())));
    line
}

/// Writes the line of a broken policy rule.
fn policy_line(p: &PolicyViolation) -> (line: Vec<Span>)
    ensures
        line.deep_view() == to_policy_line()(ViolationView::Policy(p.deep_view())),
{
    let mut rest = " ".to_owned();
    rest.append(p.to_string().as_str());
    let line = vec![
        fixed("    ", Style::Plain),
        fixed("-", Style::Red),
        styled(rest, Style::Plain),
    ];
    assert(line.deep_view() =~= to_policy_line()(ViolationView::Policy(p.deep_view())));
    line
}

/// Adds a section to the summary.
fn append_section(
    summary: &mut Vec<Vec<Span>>,
    label: &str,
    style: Style,
    title: &str,
    lines: Vec<Vec<Span>>,
)
    ensures
        final(summary).deep_view() == old(summary).deep_view() + section(
            label@,
            style,
            title@,
            lines.deep_view(),
        ),
{
    let ghost before = summary.deep_view();
    let ghost body = lines.deep_view();
    if lines.len() == 0 {
        assert(before + section(label@, style, title@, body) =~= before);
        return;
    }
    let mut rest = " ".to_owned();
    rest.append(title);
    rest.append(" (");
    rest.append(decimal_text(lines.len() as u128).as_str());
    rest.append("):");
    let first = vec![
        fixed("  ", Style::Plain),
        fixed(label, style),
        styled(rest, Style::Plain),
    ];
    assert(first.deep_view() =~= heading(label@, style, title@, body.len()));
    let mut lines = lines;
    let blank: Vec<Span> = Vec::new();
    assert(blank.deep_view() =~= Seq::empty());
    summary.push(first);
    summary.append(&mut lines);
    summary.push(blank);
    assert(summary.deep_view() =~= before + section(label@, style, title@, body));
}

/// The lines of the three sections.
struct SectionLines {
    unverified: Vec<Vec<Span>>,
    freshness: Vec<Vec<Span>>,
    policy: Vec<Vec<Span>>,
}

/// Writes the lines of the three sections.
fn section_lines(violations: &[Violation]) -> (lines: SectionLines)
    ensures
        lines.unverified.deep_view() == select(
            violations.deep_view(),
            about_unverified(),
            to_unverified_line(),
        ),
        lines.freshness.deep_view() == select(
            violations.deep_view(),
            about_freshness(),
            to_freshness_line(),
        ),
        lines.policy.deep_view() == select(
            violations.deep_view(),
            about_policy(),
            to_policy_line(),
        ),
{
    let ghost all = violations.deep_view();
    let mut unverified: Vec<Vec<Span>> = Vec::new();
    let mut freshness: Vec<Vec<Span>> = Vec::new();
    let mut policy: Vec<Vec<Span>> = Vec::new();
    proof {
        select_ends(all, about_unverified(), to_unverified_line());
        select_ends(all, about_freshness(), to_freshness_line());
        select_ends(all, about_policy(), to_policy_line());
    }
    let mut i: usize = 0;
    while i < violations.len()
        invariant
            i <= violations@.len(),
            all == violations.deep_view(),
            unverified.deep_view() == select(
                all.take(i as int),
                about_unverified(),
                to_unverified_line(),
            ),
            freshness.deep_view() == select(
                all.take(i as int),
                about_freshness(),
                to_freshness_line(),
            ),
            policy.deep_view() == select(all.take(i as int), about_policy(), to_policy_line()),
        decreases violations@.len() - i,
    {
        let ghost unverified_so_far = unverified.deep_view();
        let ghost freshness_so_far = freshness.deep_view();
        let ghost policy_so_far = policy.deep_view();
        proof {
            select_step(all, about_unverified(), to_unverified_line(), i as int);
            select_step(all, about_freshness(), to_freshness_line(), i as int);
            select_step(all, about_policy(), to_policy_line(), i as int);
            assert(all[i as int] == violations@[i as int].deep_view());
        }
        match &violations[i] {
            Violation::Unverified { crate_name, version } => {
                let line = unverified_line(crate_name, version);
                unverified.push(line);
                assert(unverified.deep_view() =~= unverified_so_far.push(line.deep_view()));
            },
            Violation::Freshness(f) => {
                let line = freshness_line(f);
                freshness.push(line);
                assert(freshness.deep_view() =~= freshness_so_far.push(line.deep_view()));
            },
            Violation::Policy(p) => {
                let line = policy_line(p);
                policy.push(line);
                assert(policy.deep_view() =~= policy_so_far.push(line.deep_view()));
            },
        }
        i = i + 1;
    }
    SectionLines { unverified, freshness, policy }
}

/// Writes the first lines of the summary.
fn head_lines(packages_checked: usize) -> (lines: Vec<Vec<Span>>)
    ensures
        lines.deep_view() == summary_head(packages_checked as nat),
{
    let blank: Vec<Span> = Vec::new();
    let title = vec![fixed("━━━ escudo supply chain audit ━━━", Style::Bold)];
    let count = vec![
        fixed("  packages checked: ", Style::Plain),
        styled(decimal_text(packages_checked as u128), Style::Cyan),
    ];
    let after: Vec<Span> = Vec::new();
    assert(blank.deep_view() =~= Seq::empty());
    assert(after.deep_view() =~= Seq::empty());
    assert(title.deep_view() =~= summary_head(packages_checked as nat)[1]);
    assert(count.deep_view() =~= summary_head(packages_checked as nat)[2]);
    let lines = vec![blank, title, count, after];
    assert(lines.deep_view() =~= summary_head(packages_checked as nat));
    lines
}

/// Adds the last lines of the summary where nothing was found.
fn append_clean(summary: &mut Vec<Vec<Span>>)
    ensures
        final(summary).deep_view() == old(summary).deep_view() + summary_clean(),
{
    let ghost before = summary.deep_view();
    let line = vec![
        fixed("  ", Style::Plain),
        fixed("OK", Style::BoldGreen),
        fixed(" No violations found.", Style::Plain),
    ];
    let blank: Vec<Span> = Vec::new();
    assert(blank.deep_view() =~= Seq::empty());
    assert(line.deep_view() =~= summary_clean()[0]);
    summary.push(line);
    summary.push(blank);
    assert(summary.deep_view() =~= before + summary_clean());
}

/// Adds the last lines of the summary where something was found.
fn append_result(summary: &mut Vec<Vec<Span>>, violations: usize)
    ensures
        final(summary).deep_view() == old(summary).deep_view() + summary_result(
            violations as nat,
        ),
{
    let ghost before = summary.deep_view();
    let mut rest = " ".to_owned();
    rest.append(decimal_text(violations as u128).as_str());
    rest.append(" violation(s) found.");
    let line = vec![
        fixed("  ", Style::Plain),
        fixed("RESULT", Style::BoldRed),
        styled(rest, Style::Plain),
    ];
    let blank: Vec<Span> = Vec::new();
    assert(blank.deep_view() =~= Seq::empty());
    assert(line.deep_view() =~= summary_result(violations as nat)[0]);
    summary.push(line);
    summary.push(blank);
    assert(summary.deep_view() =~= before + summary_result(violations as nat));
}

impl EscudoReport {
    /// The summary for a terminal, line by line.
    pub fn human_lines(&self) -> (lines: Vec<Vec<Span>>)
        ensures
            lines.deep_view() == summary(self.deep_view()),
    {
        let mut lines = head_lines(self.packages_checked);
        if self.is_clean() {
            append_clean(&mut lines);
            return lines;
        }
        let sections = section_lines(self.violations.as_slice());
        append_section(
            &mut lines,
            "FAIL",
            Style::BoldRed,
            "Unverified crates",
            sections.unverified,
        );
        append_section(
            &mut lines,
            "WARN",
            Style::BoldYellow,
            "Freshness violations",
            sections.freshness,
        );
        append_section(
            &mut lines,
            "FAIL",
            Style::BoldRed,
            "Policy violations",
            sections.policy,
        );
        append_result(&mut lines, self.violations.len());
        lines
    }
}

/// The name of the file for a report of the given time.
pub open spec fn report_file(stamp: Seq<char>) -> Seq<char> {
    "escudo-report-"@ + stamp + ".html"@
}

/// The name of the file for a report of the given time.
pub fn report_file_name(stamp: &str) -> (file: String)
    ensures
        file@ == report_file(stamp@),
{
    let mut file = "escudo-report-".to_owned();
    file.append(stamp);
    file.append(".html");
    file
}

/// The three lists of a report hold as many entries as it has violations.
pub proof fn entries_add_up(audience: Audience, violations: Seq<ViolationView>)
    ensures
        entries_for(audience, violations).unverified.len() + entries_for(
            audience,
            violations,
        ).freshness.len() + entries_for(audience, violations).policy.len() == violations.len(),
    decreases violations.len(),
{
    let unverified = to_unverified_entry();
    let freshness = to_freshness_entry(audience);
    let policy = to_policy_entry(audience);
    select_ends(violations, about_unverified(), unverified);
    select_ends(violations, about_freshness(), freshness);
    select_ends(violations, about_policy(), policy);
    if violations.len() > 0 {
        let last = violations.len() - 1;
        let shorter = violations.take(last);
        entries_add_up(audience, shorter);
        select_step(violations, about_unverified(), unverified, last);
        select_step(violations, about_freshness(), freshness, last);
        select_step(violations, about_policy(), policy, last);
    } else {
        assert(violations.take(0) =~= violations);
    }
}

/// There is one workflow command for each violation, and one for a clean
/// report.
pub proof fn one_command_for_each(report: EscudoReportView)
    ensures
        report.clean() ==> github_commands(report).len() == 1,
        !report.clean() ==> github_commands(report).len() == report.violations.len(),
{
}

/// The lists are the same for every audience, but for how dates and kinds are
/// written.
pub proof fn lists_agree(violations: Seq<ViolationView>)
    ensures
        entries_for(Audience::Machine, violations).unverified == entries_for(
            Audience::Reader,
            violations,
        ).unverified,
        entries_for(Audience::Machine, violations).freshness.len() == entries_for(
            Audience::Reader,
            violations,
        ).freshness.len(),
        entries_for(Audience::Machine, violations).policy.len() == entries_for(
            Audience::Reader,
            violations,
        ).policy.len(),
        forall|k: int|
            0 <= k < entries_for(Audience::Machine, violations).policy.len() ==> (
            #[trigger] entries_for(Audience::Machine, violations).policy[k]).message
                == entries_for(Audience::Reader, violations).policy[k].message,
{
}

/// A violation goes to one list, its own, with what is known of it: a version
/// that is too fresh with its date in RFC 3339 for machines and to the minute
/// for readers, a broken rule with its kind and its message.
pub proof fn entries_of_one_violation(audience: Audience, violation: ViolationView)
    ensures
        ({
            let entries = entries_for(audience, seq![violation]);
            match violation {
                ViolationView::Unverified { crate_name, version } => {
                    &&& entries.unverified == seq![UnverifiedCrateView { crate_name, version }]
                    &&& entries.freshness.len() == 0
                    &&& entries.policy.len() == 0
                },
                ViolationView::Freshness(f) => {
                    &&& entries.unverified.len() == 0
                    &&& entries.freshness.len() == 1
                    &&& entries.freshness[0].crate_name == f.crate_name
                    &&& entries.freshness[0].version == f.version
                    &&& entries.freshness[0].age_days == f.age_days
                    &&& entries.freshness[0].cooldown_days == f.cooldown_days
                    &&& audience is Machine ==> entries.freshness[0].published == rfc3339(
                        f.published.secs,
                        f.published.nanos,
                    )
                    &&& audience is Reader ==> entries.freshness[0].published == formatted_date(
                        f.published.secs,
                        f.published.nanos,
                        "%Y-%m-%d %H:%M UTC"@,
                    )
                    &&& entries.policy.len() == 0
                },
                ViolationView::Policy(p) => {
                    &&& entries.unverified.len() == 0
                    &&& entries.freshness.len() == 0
                    &&& entries.policy.len() == 1
                    &&& entries.policy[0].message == policy_message(p)
                    &&& audience is Machine ==> entries.policy[0].kind == kind_of(p)
                    &&& audience is Reader ==> entries.policy[0].kind == label_of(p)
                },
            }
        }),
{
    select_of_one(violation, about_unverified(), to_unverified_entry());
    select_of_one(violation, about_freshness(), to_freshness_entry(audience));
    select_of_one(violation, about_policy(), to_policy_entry(audience));
}

/// The lists go violation by violation.
pub proof fn entries_go_violation_by_violation(
    audience: Audience,
    a: Seq<ViolationView>,
    b: Seq<ViolationView>,
)
    ensures
        entries_for(audience, a + b).unverified == entries_for(audience, a).unverified
            + entries_for(audience, b).unverified,
        entries_for(audience, a + b).freshness == entries_for(audience, a).freshness + entries_for(
            audience,
            b,
        ).freshness,
        entries_for(audience, a + b).policy == entries_for(audience, a).policy + entries_for(
            audience,
            b,
        ).policy,
{
    select_goes_part_by_part(a, b, about_unverified(), to_unverified_entry());
    select_goes_part_by_part(a, b, about_freshness(), to_freshness_entry(audience));
    select_goes_part_by_part(a, b, about_policy(), to_policy_entry(audience));
}

/// Kinds are those of the rules: two violations are of one kind, for machines
/// and for readers, exactly if they break the same rule.
pub proof fn kinds_are_those_of_the_rules(a: PolicyViolationView, b: PolicyViolationView)
    ensures
        kind_of(a) == kind_of(b) <==> rule_of(a) == rule_of(b),
        label_of(a) == label_of(b) <==> rule_of(a) == rule_of(b),
{
    reveal_strlit("git_dependency");
    reveal_strlit("path_dependency");
    reveal_strlit("duplicate_versions");
    reveal_strlit("banned_crate");
    reveal_strlit("disallowed_license");
    reveal_strlit("git dep");
    reveal_strlit("path dep");
    reveal_strlit("duplicates");
    reveal_strlit("banned");
    reveal_strlit("license");
    assert("git_dependency"@[0] == 'g' && "path_dependency"@[0] == 'p' && "duplicate_versions"@[1]
        == 'u' && "banned_crate"@[0] == 'b' && "disallowed_license"@[1] == 'i');
    assert("git_dependency"@[1] == 'i' && "path_dependency"@[1] == 'a' && "banned_crate"@[1]
        == 'a' && "duplicate_versions"@[0] == 'd' && "disallowed_license"@[0] == 'd');
    assert("git dep"@[0] == 'g' && "path dep"@[0] == 'p' && "duplicates"@[0] == 'd' && "banned"@[0]
        == 'b' && "license"@[0] == 'l');
}

/// A workflow command is a warning for a fresh version and an error for
/// everything else, and tells what it is about.
pub proof fn commands_tell_what_they_are_about(violation: ViolationView)
    ensures
        violation is Freshness <==> "::warning"@.is_prefix_of(github_command(violation)),
        violation !is Freshness <==> "::error"@.is_prefix_of(github_command(violation)),
        match violation {
            ViolationView::Freshness(f) => {
                &&& contains_text(github_command(violation), f.crate_name)
                &&& contains_text(github_command(violation), f.version)
                &&& contains_text(github_command(violation), signed_decimal(f.age_days))
                &&& contains_text(github_command(violation), decimal(f.cooldown_days as nat))
            },
            ViolationView::Policy(p) => contains_text(
                github_command(violation),
                policy_message(p),
            ),
            ViolationView::Unverified { crate_name, version } => contains_text(
                github_command(violation),
                crate_name,
            ) && contains_text(github_command(violation), version),
        },
{
    let command = github_command(violation);
    reveal_strlit("::warning");
    reveal_strlit("::error");
    assert("::warning"@[2] == 'w' && "::error"@[2] == 'e');
    match violation {
        ViolationView::Freshness(f) => {
            let age = signed_decimal(f.age_days);
            let days = decimal(f.cooldown_days as nat);
            let a = "::warning title=escudo: fresh crate::"@;
            let b = " v"@;
            let c = " published "@;
            let d = " days ago (cooldown: "@;
            let e = " days)"@;
            parts_are_contained(a, f.crate_name, b + f.version + c + age + d + days + e);
            parts_are_contained(a + f.crate_name + b, f.version, c + age + d + days + e);
            parts_are_contained(a + f.crate_name + b + f.version + c, age, d + days + e);
            parts_are_contained(a + f.crate_name + b + f.version + c + age + d, days, e);
            assert(command =~= a + f.crate_name + (b + f.version + c + age + d + days + e));
            assert(command =~= a + f.crate_name + b + f.version + (c + age + d + days + e));
            assert(command =~= a + f.crate_name + b + f.version + c + age + (d + days + e));
            reveal_strlit("::warning title=escudo: fresh crate::");
            assert(command.subrange(0, "::warning"@.len() as int) =~= "::warning"@);
            assert(command[2] == 'w');
        },
        ViolationView::Policy(p) => {
            let a = "::error title=escudo: policy violation::"@;
            parts_are_contained(a, policy_message(p), Seq::empty());
            assert(command =~= a + policy_message(p) + Seq::empty());
            reveal_strlit("::error title=escudo: policy violation::");
            assert(command.subrange(0, "::error"@.len() as int) =~= "::error"@);
            assert(command[2] == 'e');
        },
        ViolationView::Unverified { crate_name, version } => {
            let a = "::error title=escudo: unverified crate::"@;
            let b = " v"@;
            let c = " not found in crates.io API"@;
            parts_are_contained(a, crate_name, b + version + c);
            parts_are_contained(a + crate_name + b, version, c);
            assert(command =~= a + crate_name + (b + version + c));
            reveal_strlit("::error title=escudo: unverified crate::");
            assert(command.subrange(0, "::error"@.len() as int) =~= "::error"@);
            assert(command[2] == 'e');
        },
    }
}

/// Commands come violation by violation, in their order, whatever the number of
/// packages; a clean report gives that number.
pub proof fn commands_come_violation_by_violation(
    a: Seq<ViolationView>,
    b: Seq<ViolationView>,
    packages_checked: nat,
    other: nat,
)
    requires
        a.len() > 0,
        b.len() > 0,
    ensures
        github_commands(EscudoReportView { violations: a + b, packages_checked })
            == github_commands(EscudoReportView { violations: a, packages_checked: other })
            + github_commands(EscudoReportView { violations: b, packages_checked: other }),
        a.len() == 1 ==> github_commands(EscudoReportView { violations: a, packages_checked })
            == seq![github_command(a[0])],
        contains_text(
            github_commands(EscudoReportView { violations: Seq::empty(), packages_checked })[0],
            decimal(packages_checked),
        ),
{
    assert((a + b).map_values(to_github_command()) =~= a.map_values(to_github_command())
        + b.map_values(to_github_command()));
    if a.len() == 1 {
        assert(a.map_values(to_github_command()) =~= seq![github_command(a[0])]);
    }
    parts_are_contained(
        "::notice title=escudo::All "@,
        decimal(packages_checked),
        " packages passed supply chain checks."@,
    );
}

/// A line of the summary tells of a violation.
pub open spec fn line_tells_of(line: Seq<SpanView>, violation: ViolationView) -> bool {
    match violation {
        ViolationView::Unverified { crate_name, version } => {
            &&& line.len() == 5
            &&& line[3].text == crate_name
            &&& contains_text(line[4].text, version)
        },
        ViolationView::Freshness(f) => {
            &&& line.len() == 5
            &&& line[3].text == f.crate_name
            &&& contains_text(line[4].text, f.version)
            &&& contains_text(line[4].text, signed_decimal(f.age_days))
            &&& contains_text(line[4].text, decimal(f.cooldown_days as nat))
        },
        ViolationView::Policy(p) => {
            &&& line.len() == 3
            &&& contains_text(line[2].text, policy_message(p))
        },
    }
}

/// The lines of the three sections tell of their violations.
proof fn section_lines_tell(violation: ViolationView)
    ensures
        violation is Unverified ==> line_tells_of(to_unverified_line()(violation), violation),
        violation is Freshness ==> line_tells_of(to_freshness_line()(violation), violation),
        violation is Policy ==> line_tells_of(to_policy_line()(violation), violation),
{
    match violation {
        ViolationView::Unverified { crate_name, version } => {
            parts_are_contained(" v"@, version, " — not found in crates.io API"@);
        },
        ViolationView::Freshness(f) => {
            let text = to_freshness_line()(violation)[4].text;
            let age = signed_decimal(f.age_days);
            let days = decimal(f.cooldown_days as nat);
            let a = " v"@;
            let b = " — published "@;
            let c = " days ago (cooldown: "@;
            let d = ")"@;
            parts_are_contained(a, f.version, b + age + c + days + d);
            parts_are_contained(a + f.version + b, age, c + days + d);
            parts_are_contained(a + f.version + b + age + c, days, d);
            assert(text =~= a + f.version + (b + age + c + days + d));
            assert(text =~= a + f.version + b + age + (c + days + d));
        },
        ViolationView::Policy(p) => {
            parts_are_contained(" "@, policy_message(p), Seq::empty());
            assert(to_policy_line()(violation)[2].text =~= " "@ + policy_message(p)
                + Seq::empty());
        },
    }
}

/// Every violation has a line in the summary.
pub proof fn summaries_tell_of_every_violation(report: EscudoReportView, k: int)
    requires
        0 <= k < report.violations.len(),
    ensures
        exists|n: int|
            0 <= n < summary(report).len() && line_tells_of(
                #[trigger] summary(report)[n],
                report.violations[k],
            ),
{
    let violations = report.violations;
    let violation = violations[k];
    let unverified = select(violations, about_unverified(), to_unverified_line());
    let freshness = select(violations, about_freshness(), to_freshness_line());
    let policy = select(violations, about_policy(), to_policy_line());
    let head = summary_head(report.packages_checked).len() as int;
    let first = section("FAIL"@, Style::BoldRed, "Unverified crates"@, unverified).len() as int;
    let second = section("WARN"@, Style::BoldYellow, "Freshness violations"@, freshness).len()
        as int;
    section_lines_tell(violation);
    if violation is Unverified {
        select_holds(violations, about_unverified(), to_unverified_line(), k);
        let m = choose|m: int|
            0 <= m < unverified.len() && unverified[m] == to_unverified_line()(violation);
        assert(summary(report)[head + 1 + m] == unverified[m]);
    } else if violation is Freshness {
        select_holds(violations, about_freshness(), to_freshness_line(), k);
        let m = choose|m: int|
            0 <= m < freshness.len() && freshness[m] == to_freshness_line()(violation);
        assert(summary(report)[head + first + 1 + m] == freshness[m]);
    } else {
        select_holds(violations, about_policy(), to_policy_line(), k);
        let m = choose|m: int| 0 <= m < policy.len() && policy[m] == to_policy_line()(violation);
        assert(summary(report)[head + first + second + 1 + m] == policy[m]);
    }
}

/// A summary has four lines at its head and two at its end, and between them a
/// line for each violation, and two more for each section that is not empty.
pub proof fn summaries_have_no_other_lines(report: EscudoReportView)
    ensures
        ({
            let entries = entries_for(Audience::Reader, report.violations);
            let sections = (if entries.unverified.len() > 0 {
                1int
            } else {
                0
            }) + (if entries.freshness.len() > 0 {
                1int
            } else {
                0
            }) + (if entries.policy.len() > 0 {
                1int
            } else {
                0
            });
            summary(report).len() == 6 + report.violations.len() + 2 * sections
        }),
{
    let violations = report.violations;
    entries_add_up(Audience::Reader, violations);
    if violations.len() == 0 {
        select_members(violations, about_unverified(), to_unverified_entry());
        select_members(
            violations,
            about_freshness(),
            to_freshness_entry(Audience::Reader),
        );
        select_members(violations, about_policy(), to_policy_entry(Audience::Reader));
    }
}

/// The summary tells how many packages were checked.
pub proof fn summaries_tell_the_packages(report: EscudoReportView)
    ensures
        summary(report).len() > 2,
        summary(report)[2].len() == 2,
        summary(report)[2][1].text == decimal(report.packages_checked),
{
}

/// The file of a report is called by its time: the time is all that differs
/// between two files.
pub proof fn report_files_are_called_by_their_time(a: Seq<char>, b: Seq<char>)
    ensures
        report_file(a) == report_file(b) ==> a == b,
        contains_text(report_file(a), a),
        ".html"@.is_suffix_of(report_file(a)),
        report_file(a).len() == report_file(b).len() <==> a.len() == b.len(),
{
    let front = "escudo-report-"@;
    parts_are_contained(front, a, ".html"@);
    let at = front.len() as int;
    assert(report_file(a).subrange(at, at + a.len()) =~= a);
    assert(report_file(b).subrange(at, at + b.len()) =~= b);
    let len = report_file(a).len() as int;
    assert(report_file(a).subrange(len - ".html"@.len(), len) =~= ".html"@);
}

/// The numbers of a document agree with its lists: the three of them hold as
/// many entries as violations are counted, and it is clean exactly if none is.
pub proof fn documents_agree_with_their_lists(
    report: EscudoReportView,
    date: Seq<char>,
    project_name: Option<Seq<char>>,
    version: Seq<char>,
)
    ensures
        ({
            let json = json_of(report);
            &&& json.packages_checked == report.packages_checked
            &&& json.violations_count == report.violations.len()
            &&& json.violations_count == json.unverified_crates.len()
                + json.freshness_violations.len() + json.policy_violations.len()
            &&& json.clean <==> json.violations_count == 0
            &&& json.unverified_crates == entries_for(
                Audience::Machine,
                report.violations,
            ).unverified
            &&& json.freshness_violations == entries_for(
                Audience::Machine,
                report.violations,
            ).freshness
            &&& json.policy_violations == entries_for(Audience::Machine, report.violations).policy
        }),
        ({
            let html = html_of(report, date, project_name, version);
            &&& html.packages_checked == report.packages_checked
            &&& html.violations_count == report.violations.len()
            &&& html.violations_count == html.unverified_count + html.freshness_count
                + html.policy_count
            &&& html.unverified_count == html.unverified_crates.len()
            &&& html.freshness_count == html.freshness_violations.len()
            &&& html.policy_count == html.policy_violations.len()
            &&& html.clean <==> html.violations_count == 0
            &&& html.violations_plural <==> html.violations_count != 1
            &&& html.unverified_crates
                == entries_for(Audience::Reader, report.violations).unverified
            &&& html.freshness_violations == entries_for(
                Audience::Reader,
                report.violations,
            ).freshness
            &&& html.policy_violations == entries_for(Audience::Reader, report.violations).policy
            &&& html.date == date
            &&& html.version == version
            &&& project_name matches Some(name) ==> html.project_name == name
        }),
{
    entries_add_up(Audience::Machine, report.violations);
    entries_add_up(Audience::Reader, report.violations);
}

/// The sections and the end of a summary tell their counts.
pub proof fn summaries_tell_the_counts(report: EscudoReportView)
    requires
        !report.clean(),
    ensures
        ({
            let lines = summary(report);
            let entries = entries_for(Audience::Reader, report.violations);
            let first: int = if entries.unverified.len() > 0 {
                entries.unverified.len() as int + 2
            } else {
                0
            };
            let second: int = if entries.freshness.len() > 0 {
                entries.freshness.len() as int + 2
            } else {
                0
            };
            &&& lines.len() >= 6
            &&& contains_text(lines[lines.len() - 2][2].text, decimal(report.violations.len()))
            &&& entries.unverified.len() > 0 ==> contains_text(
                lines[4][2].text,
                decimal(entries.unverified.len()),
            )
            &&& entries.freshness.len() > 0 ==> contains_text(
                lines[4 + first][2].text,
                decimal(entries.freshness.len()),
            )
            &&& entries.policy.len() > 0 ==> contains_text(
                lines[4 + first + second][2].text,
                decimal(entries.policy.len()),
            )
        }),
{
    let entries = entries_for(Audience::Reader, report.violations);
    let lines = summary(report);
    let total = decimal(report.violations.len());
    summaries_have_no_other_lines(report);
    parts_are_contained(" "@, total, " violation(s) found."@);
    assert(lines[lines.len() - 2][2].text == " "@ + total + " violation(s) found."@);
    heading_tells("Unverified crates"@, entries.unverified.len());
    heading_tells("Freshness violations"@, entries.freshness.len());
    heading_tells("Policy violations"@, entries.policy.len());
}

/// A heading tells its count.
proof fn heading_tells(title: Seq<char>, count: nat)
    ensures
        contains_text(" "@ + title + " ("@ + decimal(count) + "):"@, decimal(count)),
{
    parts_are_contained(" "@ + title + " ("@, decimal(count), "):"@);
}

/// Workflow commands are made by one pattern: the pieces around what a violation
/// is about are the same for all of them.
pub proof fn commands_have_one_pattern() -> (p: Seq<Seq<char>>)
    ensures
        p.len() == 11,
        forall|v: FreshnessViolationView|
            #[trigger] github_command(ViolationView::Freshness(v)) == p[0] + v.crate_name
            + p[1] + v.version + p[2] + signed_decimal(v.age_days) + p[3]
            + decimal(v.cooldown_days as nat) + p[4],
        forall|v: PolicyViolationView| #[trigger] github_command(ViolationView::Policy(v))
            == p[5] + policy_message(v),
        forall|crate_name: Seq<char>, version: Seq<char>| #[trigger] github_command(
            ViolationView::Unverified { crate_name, version },
        ) == p[6] + crate_name + p[7] + version + p[8],
        forall|n: nat| #[trigger] github_notice(n) == p[9] + decimal(n) + p[10],
{
    let p = seq![
        "::warning title=escudo: fresh crate::"@,
        " v"@,
        " published "@,
        " days ago (cooldown: "@,
        " days)"@,
        "::error title=escudo: policy violation::"@,
        "::error title=escudo: unverified crate::"@,
        " v"@,
        " not found in crates.io API"@,
        "::notice title=escudo::All "@,
        " packages passed supply chain checks."@,
    ];
    assert forall|v: FreshnessViolationView|
        #[trigger] github_command(ViolationView::Freshness(v)) == p[0] + v.crate_name + p[1]
        + v.version + p[2] + signed_decimal(v.age_days) + p[3]
        + decimal(v.cooldown_days as nat) + p[4] by {
        assert(github_command(ViolationView::Freshness(v)) =~= p[0] + v.crate_name + p[1]
            + v.version + p[2] + signed_decimal(v.age_days) + p[3]
            + decimal(v.cooldown_days as nat) + p[4]);
    }
    assert forall|v: PolicyViolationView| #[trigger] github_command(ViolationView::Policy(v))
        == p[5] + policy_message(v) by {
        assert(github_command(ViolationView::Policy(v)) =~= p[5] + policy_message(v));
    }
    assert forall|crate_name: Seq<char>, version: Seq<char>| #[trigger] github_command(
            ViolationView::Unverified { crate_name, version },
        ) == p[6] + crate_name + p[7] + version + p[8] by {
        assert(github_command(
            ViolationView::Unverified { crate_name, version },
        ) =~= p[6] + crate_name + p[7] + version + p[8]);
    }
    assert forall|n: nat| #[trigger] github_notice(n) == p[9] + decimal(n) + p[10] by {
        assert(github_notice(n) =~= p[9] + decimal(n) + p[10]);
    }
    p
}

/// Headings, and the end of a summary, are made by one pattern, whatever the
/// count.
pub proof fn headings_have_one_pattern() -> (p: Seq<Seq<char>>)
    ensures
        p.len() == 5,
        forall|label: Seq<char>, style: Style, title: Seq<char>, n: nat|
            #[trigger] heading(label, style, title, n)[2].text == p[0] + title + p[1]
            + decimal(n) + p[2],
        forall|n: nat| #[trigger] summary_result(n)[0][2].text == p[3] + decimal(n) + p[4],
{
    let p = seq![
        " "@,
        " ("@,
        "):"@,
        " "@,
        " violation(s) found."@,
    ];
    assert forall|label: Seq<char>, style: Style, title: Seq<char>, n: nat|
        #[trigger] heading(label, style, title, n)[2].text == p[0] + title + p[1] + decimal(n)
        + p[2] by {
        assert(heading(label, style, title, n)[2].text =~= p[0] + title + p[1] + decimal(n) + p[2]);
    }
    assert forall|n: nat| #[trigger] summary_result(n)[0][2].text == p[3] + decimal(n) + p[4] by {
        assert(summary_result(n)[0][2].text =~= p[3] + decimal(n) + p[4]);
    }
    p
}

/// Report files are called by one pattern.
pub proof fn report_files_have_one_pattern() -> (p: Seq<Seq<char>>)
    ensures
        p.len() == 2,
        forall|stamp: Seq<char>| #[trigger] report_file(stamp) == p[0] + stamp + p[1],
{
    let p = seq![
        "escudo-report-"@,
        ".html"@,
    ];
    assert forall|stamp: Seq<char>| #[trigger] report_file(stamp) == p[0] + stamp + p[1] by {
        assert(report_file(stamp) =~= p[0] + stamp + p[1]);
    }
    p
}

/// The lines of a section are made by one pattern: all of them begin with the
/// same spans, hold the name of the crate in a span of its own where they tell
/// of one, and end with a span that is made by one pattern, too.
pub proof fn lines_have_one_pattern() -> (fixed: (Seq<SpanView>, Seq<Seq<char>>))
    ensures
        fixed.0.len() == 5,
        fixed.1.len() == 7,
        forall|v: FreshnessViolationView|
            #![trigger to_freshness_line()(ViolationView::Freshness(v))]
            to_freshness_line()(ViolationView::Freshness(v)) == seq![
                fixed.0[0],
                fixed.0[1],
                fixed.0[2],
                SpanView { text: v.crate_name, style: fixed.0[3].style },
                SpanView {
                    text: fixed.1[0] + v.version + fixed.1[1] + signed_decimal(v.age_days)
                        + fixed.1[2] + decimal(v.cooldown_days as nat) + fixed.1[3],
                    style: fixed.0[4].style,
                },
            ],
        forall|crate_name: Seq<char>, version: Seq<char>|
            #![trigger to_unverified_line()(ViolationView::Unverified { crate_name, version })]
            to_unverified_line()(ViolationView::Unverified { crate_name, version }) == seq![
                fixed.0[0],
                fixed.0[1],
                fixed.0[2],
                SpanView { text: crate_name, style: fixed.0[3].style },
                SpanView {
                    text: fixed.1[4] + version + fixed.1[5],
                    style: fixed.0[4].style,
                },
            ],
        forall|v: PolicyViolationView|
            #![trigger to_policy_line()(ViolationView::Policy(v))]
            to_policy_line()(ViolationView::Policy(v)) == seq![
                fixed.0[0],
                fixed.0[1],
                SpanView { text: fixed.1[6] + policy_message(v), style: fixed.0[4].style },
            ],
{
    let spans = seq![
        span("    "@, Style::Plain),
        span("-"@, Style::Red),
        span(" "@, Style::Plain),
        span(""@, Style::Bold),
        span(""@, Style::Plain),
    ];
    let pieces = seq![
        " v"@,
        " — published "@,
        " days ago (cooldown: "@,
        ")"@,
        " v"@,
        " — not found in crates.io API"@,
        " "@,
    ];
    (spans, pieces)
}

/// The lines of the three sections stand in the summary one after another, each
/// section under its heading: unverified crates, fresh ones, broken rules.
pub proof fn lines_stand_in_order(report: EscudoReportView)
    requires
        !report.clean(),
    ensures
        ({
            let lines = summary(report);
            let unverified = select(
                report.violations,
                about_unverified(),
                to_unverified_line(),
            );
            let freshness = select(report.violations, about_freshness(), to_freshness_line());
            let policy = select(report.violations, about_policy(), to_policy_line());
            let first: int = 4;
            let second: int = first + (if unverified.len() > 0 {
                unverified.len() + 2
            } else {
                0
            });
            let third: int = second + (if freshness.len() > 0 {
                freshness.len() + 2
            } else {
                0
            });
            &&& unverified.len() > 0 ==> lines[first] == heading(
                "FAIL"@,
                Style::BoldRed,
                "Unverified crates"@,
                unverified.len(),
            )
            &&& forall|k: int|
                0 <= k < unverified.len() ==> lines[first + 1 + k] == #[trigger] unverified[k]
            &&& freshness.len() > 0 ==> lines[second] == heading(
                "WARN"@,
                Style::BoldYellow,
                "Freshness violations"@,
                freshness.len(),
            )
            &&& forall|k: int|
                0 <= k < freshness.len() ==> lines[second + 1 + k] == #[trigger] freshness[k]
            &&& policy.len() > 0 ==> lines[third] == heading(
                "FAIL"@,
                Style::BoldRed,
                "Policy violations"@,
                policy.len(),
            )
            &&& forall|k: int|
                0 <= k < policy.len() ==> lines[third + 1 + k] == #[trigger] policy[k]
        }),
{
}

} // verus!
