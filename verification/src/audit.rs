//! The audit: from the packages of a dependency tree to a report.

use vstd::prelude::*;

use crate::config::{CrateExceptionView, EscudoConfig, EscudoConfigView};
use crate::error::{Violation, ViolationView};
use crate::freshness::{
    check_freshness, freshness_result, is_fresh, is_unverified, to_fresh_violation,
    to_unverified, verdict, CrateVersions, CrateVersionsView, FreshnessResultView,
    FreshnessViolationView, UnverifiedCrateView,
};
use crate::metadata::{PackageInfo, PackageInfoView};
use crate::policy::{check_policies, policy_violations, PolicyViolationView};
use crate::report::{EscudoReport, EscudoReportView};
use crate::select::{
    concatenation_holds, select, select_ends, select_goes_part_by_part, select_holds,
    select_members, select_origin, select_step,
};
use crate::text::same_text;
use crate::time::{Instant, Timestamp};

verus! {

/// Options that control how the audit runs (typically derived from CLI flags).
pub struct CheckOptions<'a> {
    /// Path to the workspace `Cargo.toml`. `None` = current directory.
    pub manifest_path: Option<&'a str>,
    /// When `true`, skip all network calls (freshness checks).
    pub skip_freshness: bool,
}

impl<'a> Default for CheckOptions<'a> {
    fn default() -> (opts: Self)
        ensures
            opts.manifest_path is None,
            !opts.skip_freshness,
    {
        CheckOptions { manifest_path: None, skip_freshness: false }
    }
}

/// A package has the given name.
pub open spec fn has_package(packages: Seq<PackageInfoView>, name: Seq<char>) -> bool {
    exists|i: int| 0 <= i < packages.len() && (#[trigger] packages[i]).name == name
}

/// No package has the name that the exception is for.
pub open spec fn is_unmatched(packages: Seq<PackageInfoView>) -> spec_fn(
    CrateExceptionView,
) -> bool {
    |exception: CrateExceptionView| !has_package(packages, exception.crate_name)
}

/// The warning about an exception that no package has the name of.
pub open spec fn to_warning() -> spec_fn(CrateExceptionView) -> Seq<char> {
    |exception: CrateExceptionView|
        "warning: exception for `"@ + exception.crate_name + "` does not match any dependency"@
}

/// Whether a package has the given name.
fn any_package_named(packages: &[PackageInfo], name: &str) -> (found: bool)
    ensures
        found == has_package(packages.deep_view(), name@),
{
    let mut i: usize = 0;
    while i < packages.len()
        invariant
            i <= packages@.len(),
            forall|j: int| 0 <= j < i ==> (#[trigger] packages.deep_view()[j]).name != name@,
        decreases packages@.len() - i,
    {
        assert(packages.deep_view()[i as int] == packages@[i as int].deep_view());
        if same_text(packages[i].name.as_str(), name) {
            return true;
        }
        i = i + 1;
    }
    false
}

/// The warnings about exceptions that match no dependency.
pub fn exception_warnings(config: &EscudoConfig, packages: &[PackageInfo]) -> (warnings: Vec<
    String,
>)
    ensures
        warnings.deep_view() == select(
            config.deep_view().exceptions,
            is_unmatched(packages.deep_view()),
            to_warning(),
        ),
{
    let ghost all = config.exceptions.deep_view();
    let ghost unmatched = is_unmatched(packages.deep_view());
    let mut warnings: Vec<String> = Vec::new();
    proof {
        select_ends(all, unmatched, to_warning());
    }
    let mut i: usize = 0;
    while i < config.exceptions.len()
        invariant
            i <= config.exceptions@.len(),
            all == config.exceptions.deep_view(),
            unmatched == is_unmatched(packages.deep_view()),
            warnings.deep_view() == select(all.take(i as int), unmatched, to_warning()),
        decreases config.exceptions@.len() - i,
    {
        let ghost so_far = warnings.deep_view();
        proof {
            select_step(all, unmatched, to_warning(), i as int);
            assert(all[i as int] == config.exceptions@[i as int].deep_view());
        }
        let exception = &config.exceptions[i];
        if !any_package_named(packages, exception.crate_name.as_str()) {
            let mut warning = "warning: exception for `".to_owned();
            warning.append(exception.crate_name.as_str());
            warning.append("` does not match any dependency");
            warnings.push(warning);
            assert(warnings.deep_view() =~= so_far.push(warning@));
        }
        i = i + 1;
    }
    warnings
}

/// A freshness violation as a violation.
pub open spec fn as_freshness() -> spec_fn(FreshnessViolationView) -> ViolationView {
    |violation: FreshnessViolationView| ViolationView::Freshness(violation)
}

/// An unverified crate as a violation.
pub open spec fn as_unverified() -> spec_fn(UnverifiedCrateView) -> ViolationView {
    |entry: UnverifiedCrateView|
        ViolationView::Unverified { crate_name: entry.crate_name, version: entry.version }
}

/// A policy violation as a violation.
pub open spec fn as_policy() -> spec_fn(PolicyViolationView) -> ViolationView {
    |violation: PolicyViolationView| ViolationView::Policy(violation)
}

/// The violations that the freshness check found: the fresh versions, then the
/// unverified ones.
pub open spec fn freshness_part(result: FreshnessResultView) -> Seq<ViolationView> {
    result.violations.map_values(as_freshness()) + result.unverified.map_values(as_unverified())
}

/// The report of the audit: what the freshness check found, unless it is
/// skipped, then what the policy checks found.
pub open spec fn audit_report(
    config: EscudoConfigView,
    skip_freshness: bool,
    packages: Seq<PackageInfoView>,
    now: Instant,
    known: Seq<CrateVersionsView>,
) -> EscudoReportView {
    let freshness = if skip_freshness {
        Seq::empty()
    } else {
        freshness_part(freshness_result(config, packages, now, known))
    };
    EscudoReportView {
        violations: freshness + policy_violations(config, packages).map_values(as_policy()),
        packages_checked: packages.len(),
    }
}

/// Adds what the freshness check finds.
fn append_freshness(
    violations: &mut Vec<Violation>,
    config: &EscudoConfig,
    packages: &[PackageInfo],
    now: &Timestamp,
    known: &[CrateVersions],
)
    ensures
        final(violations).deep_view() == old(violations).deep_view() + freshness_part(
            freshness_result(
                config.deep_view(),
                packages.deep_view(),
                now.deep_view(),
                known.deep_view(),
            ),
        ),
{
    let ghost before = violations.deep_view();
    let result = check_freshness(config, packages, now, known);
    let ghost found = result.deep_view();
    let ghost fresh = found.violations.map_values(as_freshness());
    let ghost unverified = found.unverified.map_values(as_unverified());
    for violation in it: result.violations
        invariant
            it.seq().len() == found.violations.len(),
            forall|j: int|
                0 <= j < it.seq().len() ==> #[trigger] it.seq()[j].deep_view()
                    == found.violations[j],
            fresh == found.violations.map_values(as_freshness()),
            violations.deep_view() == before + fresh.take(it.index() as int),
    {
        let ghost so_far = violations.deep_view();
        let ghost i = it.index() as int;
        violations.push(Violation::Freshness(violation));
        assert(violations.deep_view() =~= so_far.push(fresh[i]));
        assert(before + fresh.take(i + 1) =~= (before + fresh.take(i)).push(fresh[i]));
    }
    assert(fresh.take(fresh.len() as int) =~= fresh);
    for entry in it: result.unverified
        invariant
            it.seq().len() == found.unverified.len(),
            forall|j: int|
                0 <= j < it.seq().len() ==> #[trigger] it.seq()[j].deep_view()
                    == found.unverified[j],
            unverified == found.unverified.map_values(as_unverified()),
            violations.deep_view() == before + fresh + unverified.take(it.index() as int),
    {
        let ghost so_far = violations.deep_view();
        let ghost i = it.index() as int;
        assert(entry.deep_view() == found.unverified[i]);
        violations.push(
            Violation::Unverified { crate_name: entry.crate_name, version: entry.version },
        );
        assert(violations.deep_view() =~= so_far.push(unverified[i]));
        assert(before + fresh + unverified.take(i + 1) =~= (before + fresh + unverified.take(
            i,
        )).push(unverified[i]));
    }
    assert(before + fresh + unverified.take(unverified.len() as int) =~= before + (fresh
        + unverified));
}

/// Adds what the policy checks find.
fn append_policy(violations: &mut Vec<Violation>, config: &EscudoConfig, packages: &[PackageInfo])
    ensures
        final(violations).deep_view() == old(violations).deep_view() + policy_violations(
            config.deep_view(),
            packages.deep_view(),
        ).map_values(as_policy()),
{
    let ghost before = violations.deep_view();
    let found = check_policies(config, packages);
    let ghost all = found.deep_view();
    let ghost broken = all.map_values(as_policy());
    for violation in it: found
        invariant
            it.seq().len() == all.len(),
            forall|j: int|
                0 <= j < it.seq().len() ==> #[trigger] it.seq()[j].deep_view() == all[j],
            broken == all.map_values(as_policy()),
            violations.deep_view() == before + broken.take(it.index() as int),
    {
        let ghost so_far = violations.deep_view();
        let ghost i = it.index() as int;
        violations.push(Violation::Policy(violation));
        assert(violations.deep_view() =~= so_far.push(broken[i]));
        assert(before + broken.take(i + 1) =~= (before + broken.take(i)).push(broken[i]));
    }
    assert(broken.take(broken.len() as int) =~= broken);
}

/// Audit the packages, with the published versions in `known`.
pub fn check(
    config: &EscudoConfig,
    opts: &CheckOptions<'_>,
    packages: &[PackageInfo],
    now: &Timestamp,
    known: &[CrateVersions],
) -> (report: EscudoReport)
    ensures
        report.deep_view() == audit_report(
            config.deep_view(),
            opts.skip_freshness,
            packages.deep_view(),
            now.deep_view(),
            known.deep_view(),
        ),
{
    let mut violations: Vec<Violation> = Vec::new();
    assert(violations.deep_view() =~= Seq::empty());
    if !opts.skip_freshness {
        append_freshness(&mut violations, config, packages, now, known);
        assert(violations.deep_view() =~= freshness_part(
            freshness_result(
                config.deep_view(),
                packages.deep_view(),
                now.deep_view(),
                known.deep_view(),
            ),
        ));
    }
    append_policy(&mut violations, config, packages);
    EscudoReport { violations, packages_checked: packages.len() }
}

/// The report is exact: it holds what the freshness check found, unless it was
/// skipped, and what the policy objects to, and nothing else.
pub proof fn report_is_exact(
    config: EscudoConfigView,
    skip_freshness: bool,
    packages: Seq<PackageInfoView>,
    now: Instant,
    known: Seq<CrateVersionsView>,
    violation: ViolationView,
)
    ensures
        audit_report(config, skip_freshness, packages, now, known).violations.contains(violation)
            <==> match violation {
            ViolationView::Freshness(v) => !skip_freshness && freshness_result(
                config,
                packages,
                now,
                known,
            ).violations.contains(v),
            ViolationView::Unverified { crate_name, version } => !skip_freshness
                && freshness_result(config, packages, now, known).unverified.contains(
                UnverifiedCrateView { crate_name, version },
            ),
            ViolationView::Policy(v) => policy_violations(config, packages).contains(v),
        },
{
    let result = freshness_result(config, packages, now, known);
    let fresh = result.violations.map_values(as_freshness());
    let unverified = result.unverified.map_values(as_unverified());
    let broken = policy_violations(config, packages).map_values(as_policy());
    let report = audit_report(config, skip_freshness, packages, now, known);
    if skip_freshness {
        assert(report.violations =~= broken);
    } else {
        concatenation_holds(fresh, unverified, violation);
        concatenation_holds(fresh + unverified, broken, violation);
    }
    match violation {
        ViolationView::Freshness(v) => {
            image_holds(result.violations, as_freshness(), v);
        },
        ViolationView::Unverified { crate_name, version } => {
            image_holds(
                result.unverified,
                as_unverified(),
                UnverifiedCrateView { crate_name, version },
            );
        },
        ViolationView::Policy(v) => {
            image_holds(policy_violations(config, packages), as_policy(), v);
        },
    }
}

/// Where no two things have the same image, the images of a sequence hold that
/// of a thing exactly if the sequence holds the thing.
proof fn image_holds<A>(items: Seq<A>, image: spec_fn(A) -> ViolationView, item: A)
    requires
        forall|a: A, b: A| #[trigger] image(a) == #[trigger] image(b) ==> a == b,
    ensures
        items.map_values(image).contains(image(item)) <==> items.contains(item),
{
    let images = items.map_values(image);
    if items.contains(item) {
        let i = choose|i: int| 0 <= i < items.len() && items[i] == item;
        assert(images[i] == image(item));
    }
    if images.contains(image(item)) {
        let i = choose|i: int| 0 <= i < images.len() && images[i] == image(item);
        assert(image(items[i]) == image(item));
    }
}

/// Without the freshness check, the report holds what the policy objects to,
/// whatever is known of the crates and whatever the time is.
pub proof fn skipping_leaves_the_policy(
    config: EscudoConfigView,
    packages: Seq<PackageInfoView>,
    now: Instant,
    known: Seq<CrateVersionsView>,
)
    ensures
        audit_report(config, true, packages, now, known).violations == policy_violations(
            config,
            packages,
        ).map_values(as_policy()),
{
    assert(audit_report(config, true, packages, now, known).violations =~= policy_violations(
        config,
        packages,
    ).map_values(as_policy()));
}

/// The freshness check only adds to what the policy objects to.
pub proof fn freshness_only_adds(
    config: EscudoConfigView,
    packages: Seq<PackageInfoView>,
    now: Instant,
    known: Seq<CrateVersionsView>,
)
    ensures
        audit_report(config, false, packages, now, known).violations == freshness_part(
            freshness_result(config, packages, now, known),
        ) + audit_report(config, true, packages, now, known).violations,
{
    skipping_leaves_the_policy(config, packages, now, known);
}

/// A report is clean exactly if the policy objects to nothing and, unless it
/// was skipped, the freshness check found nothing.
pub proof fn when_an_audit_is_clean(
    config: EscudoConfigView,
    skip_freshness: bool,
    packages: Seq<PackageInfoView>,
    now: Instant,
    known: Seq<CrateVersionsView>,
)
    ensures
        audit_report(config, skip_freshness, packages, now, known).clean() <==> {
            &&& policy_violations(config, packages).len() == 0
            &&& skip_freshness || {
                &&& freshness_result(config, packages, now, known).violations.len() == 0
                &&& freshness_result(config, packages, now, known).unverified.len() == 0
            }
        },
{
}

/// A clean audit that did not skip the freshness check vouches for every
/// crates.io package: its version is known, was not published in the future,
/// and is past its cooldown.
pub proof fn clean_audits_vouch(
    config: EscudoConfigView,
    packages: Seq<PackageInfoView>,
    now: Instant,
    known: Seq<CrateVersionsView>,
    i: int,
)
    requires
        audit_report(config, false, packages, now, known).clean(),
        0 <= i < packages.len(),
        packages[i].source is CratesIo,
    ensures
        verdict(config, now, known, packages[i]) is Settled,
{
    when_an_audit_is_clean(config, false, packages, now, known);
    if verdict(config, now, known, packages[i]) is Unverified {
        select_holds(packages, is_unverified(config, now, known), to_unverified(), i);
    }
    if verdict(config, now, known, packages[i]) is Fresh {
        select_holds(
            packages,
            is_fresh(config, now, known),
            to_fresh_violation(config, now, known),
            i,
        );
    }
}

/// One version that cannot be verified is enough to fail the audit.
pub proof fn unverified_versions_fail_the_audit(
    config: EscudoConfigView,
    packages: Seq<PackageInfoView>,
    now: Instant,
    known: Seq<CrateVersionsView>,
    i: int,
)
    requires
        0 <= i < packages.len(),
        packages[i].source is CratesIo,
        verdict(config, now, known, packages[i]) is Unverified,
    ensures
        !audit_report(config, false, packages, now, known).clean(),
        audit_report(config, false, packages, now, known).violations.contains(
            ViolationView::Unverified {
                crate_name: packages[i].name,
                version: packages[i].version,
            },
        ),
{
    let result = freshness_result(config, packages, now, known);
    let report = audit_report(config, false, packages, now, known);
    let entry = to_unverified()(packages[i]);
    select_holds(packages, is_unverified(config, now, known), to_unverified(), i);
    let k = choose|k: int| 0 <= k < result.unverified.len() && result.unverified[k] == entry;
    assert(report.violations[result.violations.len() + k] == as_unverified()(entry));
}

/// A warning is printed for exactly the exceptions that no dependency has the
/// name of.
pub proof fn stale_exceptions_are_told(
    exceptions: Seq<CrateExceptionView>,
    packages: Seq<PackageInfoView>,
    i: int,
)
    requires
        0 <= i < exceptions.len(),
    ensures
        !has_package(packages, exceptions[i].crate_name) ==> select(
            exceptions,
            is_unmatched(packages),
            to_warning(),
        ).contains(to_warning()(exceptions[i])),
        (forall|j: int|
            0 <= j < exceptions.len() ==> has_package(
                packages,
                (#[trigger] exceptions[j]).crate_name,
            )) ==> select(exceptions, is_unmatched(packages), to_warning()).len() == 0,
{
    let warnings = select(exceptions, is_unmatched(packages), to_warning());
    if !has_package(packages, exceptions[i].crate_name) {
        select_holds(exceptions, is_unmatched(packages), to_warning(), i);
    }
    if warnings.len() > 0 {
        let j = select_origin(exceptions, is_unmatched(packages), to_warning(), 0);
        assert(!has_package(packages, exceptions[j].crate_name));
    }
}

/// A report lists the fresh versions, then the unverified ones, then what the
/// policy objects to, each as the checks gave them, and counts every package.
pub proof fn reports_list_everything_in_order(
    config: EscudoConfigView,
    skip_freshness: bool,
    packages: Seq<PackageInfoView>,
    now: Instant,
    known: Seq<CrateVersionsView>,
)
    ensures
        ({
            let report = audit_report(config, skip_freshness, packages, now, known);
            let found = freshness_result(config, packages, now, known);
            let policy = policy_violations(config, packages);
            let fresh: int = if skip_freshness {
                0
            } else {
                found.violations.len() as int
            };
            let unverified: int = if skip_freshness {
                0
            } else {
                found.unverified.len() as int
            };
            &&& report.packages_checked == packages.len()
            &&& report.violations.len() == fresh + unverified + policy.len()
            &&& forall|k: int|
                0 <= k < fresh ==> #[trigger] report.violations[k] == ViolationView::Freshness(
                    found.violations[k],
                )
            &&& forall|k: int|
                fresh <= k < fresh + unverified ==> #[trigger] report.violations[k] == (
                ViolationView::Unverified {
                    crate_name: found.unverified[k - fresh].crate_name,
                    version: found.unverified[k - fresh].version,
                })
            &&& forall|k: int|
                fresh + unverified <= k < report.violations.len()
                    ==> #[trigger] report.violations[k] == ViolationView::Policy(
                    policy[k - fresh - unverified],
                )
        }),
{
}

/// In plain terms: a warning is printed for an exception exactly if no package
/// has its name, and every warning is for such an exception.
pub proof fn which_exceptions_are_warned_about(
    exceptions: Seq<CrateExceptionView>,
    packages: Seq<PackageInfoView>,
    warning: Seq<char>,
)
    ensures
        select(exceptions, is_unmatched(packages), to_warning()).contains(warning) <==> exists|
            i: int,
        |
            0 <= i < exceptions.len() && warning == "warning: exception for `"@ + (
            #[trigger] exceptions[i]).crate_name + "` does not match any dependency"@ && forall|
                j: int,
            |
                0 <= j < packages.len() ==> (#[trigger] packages[j]).name
                    != exceptions[i].crate_name,
{
    let keep = is_unmatched(packages);
    let make = to_warning();
    let warnings = select(exceptions, keep, make);
    if warnings.contains(warning) {
        let k = choose|k: int| 0 <= k < warnings.len() && warnings[k] == warning;
        let i = select_origin(exceptions, keep, make, k);
        assert(!has_package(packages, exceptions[i].crate_name));
        assert(warning == "warning: exception for `"@ + exceptions[i].crate_name
            + "` does not match any dependency"@);
    }
    if exists|i: int|
        0 <= i < exceptions.len() && warning == "warning: exception for `"@ + (
        #[trigger] exceptions[i]).crate_name + "` does not match any dependency"@ && forall|j: int|
            0 <= j < packages.len() ==> (#[trigger] packages[j]).name != exceptions[i].crate_name {
        let i = choose|i: int|
            0 <= i < exceptions.len() && warning == "warning: exception for `"@ + (
            #[trigger] exceptions[i]).crate_name + "` does not match any dependency"@ && forall|
                j: int,
            |
                0 <= j < packages.len() ==> (#[trigger] packages[j]).name
                    != exceptions[i].crate_name;
        assert(!has_package(packages, exceptions[i].crate_name));
        select_holds(exceptions, keep, make, i);
    }
}

/// Warnings come exception by exception, and for each of them once at most.
pub proof fn warnings_come_exception_by_exception(
    a: Seq<CrateExceptionView>,
    b: Seq<CrateExceptionView>,
    packages: Seq<PackageInfoView>,
)
    ensures
        select(a + b, is_unmatched(packages), to_warning()) == select(
            a,
            is_unmatched(packages),
            to_warning(),
        ) + select(b, is_unmatched(packages), to_warning()),
        select(a, is_unmatched(packages), to_warning()).len() <= a.len(),
{
    select_goes_part_by_part(a, b, is_unmatched(packages), to_warning());
    select_members(a, is_unmatched(packages), to_warning());
}

} // verus!
