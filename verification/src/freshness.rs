//! Freshness: which crate versions were published too recently, and which
//! could not be verified.

use vstd::prelude::*;

use crate::config::{CrateExceptionView, EscudoConfig, EscudoConfigView};
use crate::metadata::{PackageInfo, PackageInfoView, PackageSource};
use crate::select::{
    made_from, select, select_ends, select_goes_part_by_part, select_members, select_of_one,
    select_step,
};
use crate::text::{same_text, to_chars};
use crate::time::{
    age_in_nanos, elapsed_days, elapsed_nanos, later, nanos_per_day, no_negative_age, Instant,
    Timestamp, NANOS_PER_SEC,
};

verus! {

/// A character that crate names are made of.
pub open spec fn is_name_char(c: char) -> bool {
    ||| 'a' <= c <= 'z'
    ||| 'A' <= c <= 'Z'
    ||| '0' <= c <= '9'
    ||| c == '-'
    ||| c == '_'
}

/// A crate name that crates.io would accept.
pub open spec fn valid_crate_name(name: Seq<char>) -> bool {
    &&& 0 < name.len() <= 64
    &&& forall|i: int| 0 <= i < name.len() ==> is_name_char(#[trigger] name[i])
}

/// Whether crates.io would accept the crate name.
pub fn is_valid_crate_name(name: &str) -> (valid: bool)
    ensures
        valid == valid_crate_name(name@),
{
    let chars = to_chars(name);
    if chars.len() == 0 || chars.len() > 64 {
        return false;
    }
    let mut i: usize = 0;
    while i < chars.len()
        invariant
            i <= chars@.len(),
            chars@ == name@,
            forall|j: int| 0 <= j < i ==> is_name_char(#[trigger] name@[j]),
        decreases chars@.len() - i,
    {
        let c: char = chars[i];
        let ok = ('a' <= c && c <= 'z') || ('A' <= c && c <= 'Z') || ('0' <= c && c <= '9') || c
            == '-' || c == '_';
        if !ok {
            assert(!is_name_char(name@[i as int]));
            return false;
        }
        i = i + 1;
    }
    true
}

/// A crate version that was published too recently (within its cooldown window).
#[derive(Debug, Clone)]
pub struct FreshnessViolation {
    pub crate_name: String,
    pub version: String,
    pub published: Timestamp,
    pub age_days: i64,
    pub cooldown_days: u32,
}

/// A crate version that could not be verified against the crates.io API.
#[derive(Debug, Clone)]
pub struct UnverifiedCrate {
    pub crate_name: String,
    pub version: String,
}

/// Combined result of freshness checks.
pub struct FreshnessResult {
    pub violations: Vec<FreshnessViolation>,
    pub unverified: Vec<UnverifiedCrate>,
}

/// A published version of a crate.
#[derive(Debug, Clone)]
pub struct VersionInfo {
    /// The version number.
    pub num: String,
    /// When it was published.
    pub created_at: Timestamp,
}

/// The published versions of a crate.
#[derive(Debug, Clone)]
pub struct CrateVersions {
    pub name: String,
    pub versions: Vec<VersionInfo>,
}

/// Model of a [`FreshnessViolation`].
pub struct FreshnessViolationView {
    pub crate_name: Seq<char>,
    pub version: Seq<char>,
    pub published: Instant,
    pub age_days: int,
    pub cooldown_days: u32,
}

/// Model of an [`UnverifiedCrate`].
pub struct UnverifiedCrateView {
    pub crate_name: Seq<char>,
    pub version: Seq<char>,
}

/// Model of a [`FreshnessResult`].
pub struct FreshnessResultView {
    pub violations: Seq<FreshnessViolationView>,
    pub unverified: Seq<UnverifiedCrateView>,
}

/// Model of a [`VersionInfo`].
pub struct VersionInfoView {
    pub num: Seq<char>,
    pub created_at: Instant,
}

/// Model of [`CrateVersions`].
pub struct CrateVersionsView {
    pub name: Seq<char>,
    pub versions: Seq<VersionInfoView>,
}

impl DeepView for FreshnessViolation {
    type V = FreshnessViolationView;

    open spec fn deep_view(&self) -> FreshnessViolationView {
        FreshnessViolationView {
            crate_name: self.crate_name@,
            version: self.version@,
            published: self.published.deep_view(),
            age_days: self.age_days as int,
            cooldown_days: self.cooldown_days,
        }
    }
}

impl DeepView for UnverifiedCrate {
    type V = UnverifiedCrateView;

    open spec fn deep_view(&self) -> UnverifiedCrateView {
        UnverifiedCrateView { crate_name: self.crate_name@, version: self.version@ }
    }
}

impl DeepView for FreshnessResult {
    type V = FreshnessResultView;

    open spec fn deep_view(&self) -> FreshnessResultView {
        FreshnessResultView {
            violations: self.violations.deep_view(),
            unverified: self.unverified.deep_view(),
        }
    }
}

impl DeepView for VersionInfo {
    type V = VersionInfoView;

    open spec fn deep_view(&self) -> VersionInfoView {
        VersionInfoView { num: self.num@, created_at: self.created_at.deep_view() }
    }
}

impl DeepView for CrateVersions {
    type V = CrateVersionsView;

    open spec fn deep_view(&self) -> CrateVersionsView {
        CrateVersionsView { name: self.name@, versions: self.versions.deep_view() }
    }
}

/// The index of the first exception for a crate, or the number of exceptions.
pub open spec fn exception_index(exceptions: Seq<CrateExceptionView>, name: Seq<char>) -> int
    decreases exceptions.len(),
{
    if exceptions.len() == 0 || exceptions[0].crate_name == name {
        0
    } else {
        1 + exception_index(exceptions.skip(1), name)
    }
}

/// The cooldown of a crate: that of its first exception, or else the general
/// one.
pub open spec fn cooldown_of(config: EscudoConfigView, name: Seq<char>) -> u32 {
    let index = exception_index(config.exceptions, name);
    if index < config.exceptions.len() {
        config.exceptions[index].days
    } else {
        config.cooldown_days
    }
}

/// The cooldown that holds for the crate `name`.
pub fn cooldown_for(config: &EscudoConfig, name: &str) -> (days: u32)
    ensures
        days == cooldown_of(config.deep_view(), name@),
{
    let ghost all = config.exceptions.deep_view();
    let mut i: usize = 0;
    assert(all.skip(0) =~= all);
    while i < config.exceptions.len()
        invariant
            i <= config.exceptions@.len(),
            all == config.exceptions.deep_view(),
            exception_index(all, name@) == i + exception_index(all.skip(i as int), name@),
        decreases config.exceptions@.len() - i,
    {
        assert(all.skip(i as int)[0] == config.exceptions@[i as int].deep_view());
        if same_text(config.exceptions[i].crate_name.as_str(), name) {
            return config.exceptions[i].days;
        }
        assert(all.skip(i as int).skip(1) =~= all.skip(i + 1));
        i = i + 1;
    }
    config.cooldown_days
}

/// The published versions of a crate, if they are known.
pub open spec fn known_versions(known: Seq<CrateVersionsView>, name: Seq<char>) -> Option<
    Seq<VersionInfoView>,
>
    decreases known.len(),
{
    if known.len() == 0 {
        None
    } else if known[0].name == name {
        Some(known[0].versions)
    } else {
        known_versions(known.skip(1), name)
    }
}

/// The published version with the given number, if there is one.
pub open spec fn published_version(versions: Seq<VersionInfoView>, num: Seq<char>) -> Option<
    VersionInfoView,
>
    decreases versions.len(),
{
    if versions.len() == 0 {
        None
    } else if versions[0].num == num {
        Some(versions[0])
    } else {
        published_version(versions.skip(1), num)
    }
}

/// What the freshness check says of a package.
pub enum Verdict {
    /// The version is not known, or was published in the future.
    Unverified,
    /// The version is younger than its cooldown.
    Fresh { published: Instant, age_days: int, cooldown_days: u32 },
    /// The version is old enough.
    Settled,
}

/// The verdict on a version with the given publish date.
pub open spec fn verdict_on_date(created_at: Instant, now: Instant, cooldown_days: u32) -> Verdict {
    if later(created_at, now) {
        Verdict::Unverified
    } else if elapsed_days(now, created_at) < cooldown_days {
        Verdict::Fresh {
            published: created_at,
            age_days: elapsed_days(now, created_at),
            cooldown_days,
        }
    } else {
        Verdict::Settled
    }
}

/// The verdict on a package.
pub open spec fn verdict(
    config: EscudoConfigView,
    now: Instant,
    known: Seq<CrateVersionsView>,
    package: PackageInfoView,
) -> Verdict {
    match known_versions(known, package.name) {
        None => Verdict::Unverified,
        Some(versions) => match published_version(versions, package.version) {
            None => Verdict::Unverified,
            Some(info) => verdict_on_date(
                info.created_at,
                now,
                cooldown_of(config, package.name),
            ),
        },
    }
}

/// The package is from crates.io and its version is too fresh.
pub open spec fn is_fresh(
    config: EscudoConfigView,
    now: Instant,
    known: Seq<CrateVersionsView>,
) -> spec_fn(PackageInfoView) -> bool {
    |package: PackageInfoView|
        package.source is CratesIo && verdict(config, now, known, package) is Fresh
}

/// The violation for a package whose version is too fresh.
pub open spec fn to_fresh_violation(
    config: EscudoConfigView,
    now: Instant,
    known: Seq<CrateVersionsView>,
) -> spec_fn(PackageInfoView) -> FreshnessViolationView {
    |package: PackageInfoView|
        FreshnessViolationView {
            crate_name: package.name,
            version: package.version,
            published: verdict(config, now, known, package)->published,
            age_days: verdict(config, now, known, package)->age_days,
            cooldown_days: verdict(config, now, known, package)->cooldown_days,
        }
}

/// The package is from crates.io and its version could not be verified.
pub open spec fn is_unverified(
    config: EscudoConfigView,
    now: Instant,
    known: Seq<CrateVersionsView>,
) -> spec_fn(PackageInfoView) -> bool {
    |package: PackageInfoView|
        package.source is CratesIo && verdict(config, now, known, package) is Unverified
}

/// The entry for a package whose version could not be verified.
pub open spec fn to_unverified() -> spec_fn(PackageInfoView) -> UnverifiedCrateView {
    |package: PackageInfoView|
        UnverifiedCrateView { crate_name: package.name, version: package.version }
}

/// The crates.io packages that are too fresh, and those that could not be
/// verified.
pub open spec fn freshness_result(
    config: EscudoConfigView,
    packages: Seq<PackageInfoView>,
    now: Instant,
    known: Seq<CrateVersionsView>,
) -> FreshnessResultView {
    FreshnessResultView {
        violations: select(
            packages,
            is_fresh(config, now, known),
            to_fresh_violation(config, now, known),
        ),
        unverified: select(packages, is_unverified(config, now, known), to_unverified()),
    }
}

/// Finds the published versions of the crate `name`.
fn find_crate<'a>(known: &'a [CrateVersions], name: &str) -> (found: Option<&'a CrateVersions>)
    ensures
        match found {
            Some(c) => known_versions(known.deep_view(), name@) == Some(c.versions.deep_view()),
            None => known_versions(known.deep_view(), name@) is None,
        },
{
    let ghost all = known.deep_view();
    let mut i: usize = 0;
    assert(all.skip(0) =~= all);
    while i < known.len()
        invariant
            i <= known@.len(),
            all == known.deep_view(),
            known_versions(all, name@) == known_versions(all.skip(i as int), name@),
        decreases known@.len() - i,
    {
        assert(all.skip(i as int)[0] == known@[i as int].deep_view());
        if same_text(known[i].name.as_str(), name) {
            return Some(&known[i]);
        }
        assert(all.skip(i as int).skip(1) =~= all.skip(i + 1));
        i = i + 1;
    }
    None
}

/// Finds the published version with the number `num`.
pub fn find_version<'a>(versions: &'a [VersionInfo], num: &str) -> (found: Option<&'a VersionInfo>)
    ensures
        match found {
            Some(info) => published_version(versions.deep_view(), num@) == Some(info.deep_view()),
            None => published_version(versions.deep_view(), num@) is None,
        },
{
    let ghost all = versions.deep_view();
    let mut i: usize = 0;
    assert(all.skip(0) =~= all);
    while i < versions.len()
        invariant
            i <= versions@.len(),
            all == versions.deep_view(),
            published_version(all, num@) == published_version(all.skip(i as int), num@),
        decreases versions@.len() - i,
    {
        assert(all.skip(i as int)[0] == versions@[i as int].deep_view());
        if same_text(versions[i].num.as_str(), num) {
            return Some(&versions[i]);
        }
        assert(all.skip(i as int).skip(1) =~= all.skip(i + 1));
        i = i + 1;
    }
    None
}

/// Whether the package was published on crates.io.
pub fn from_crates_io(package: &PackageInfo) -> (published: bool)
    ensures
        published == (package.deep_view().source is CratesIo),
{
    matches!(package.source, PackageSource::CratesIo)
}

/// Where a package stands.
enum Standing {
    Unverified,
    Fresh(FreshnessViolation),
    Settled,
}

/// Looks up a package and holds its age against its cooldown.
fn judge(
    config: &EscudoConfig,
    package: &PackageInfo,
    now: &Timestamp,
    known: &[CrateVersions],
) -> (standing: Standing)
    ensures
        match standing {
            Standing::Unverified => verdict(
                config.deep_view(),
                now.deep_view(),
                known.deep_view(),
                package.deep_view(),
            ) is Unverified,
            Standing::Fresh(violation) => {
                &&& verdict(
                    config.deep_view(),
                    now.deep_view(),
                    known.deep_view(),
                    package.deep_view(),
                ) is Fresh
                &&& violation.deep_view() == to_fresh_violation(
                    config.deep_view(),
                    now.deep_view(),
                    known.deep_view(),
                )(package.deep_view())
            },
            Standing::Settled => verdict(
                config.deep_view(),
                now.deep_view(),
                known.deep_view(),
                package.deep_view(),
            ) is Settled,
        },
{
    let cooldown_days: u32 = cooldown_for(config, package.name.as_str());
    let versions = match find_crate(known, package.name.as_str()) {
        Some(c) => c.versions.as_slice(),
        None => {
            return Standing::Unverified;
        },
    };
    // A version that is missing could be yanked, or left out by a compromised
    // API to bypass the check.
    let info = match find_version(versions, package.version.as_str()) {
        Some(info) => info,
        None => {
            return Standing::Unverified;
        },
    };
    // Reject future publish dates.
    if info.created_at.is_after(now) {
        return Standing::Unverified;
    }
    let age_days: i64 = now.days_since(&info.created_at);
    if age_days < cooldown_days as i64 {
        Standing::Fresh(
            FreshnessViolation {
                crate_name: package.name.clone(),
                version: package.version.clone(),
                published: info.created_at,
                age_days,
                cooldown_days,
            },
        )
    } else {
        Standing::Settled
    }
}

/// Check every `CratesIo`-sourced package against its freshness cooldown, with
/// the published versions in `known`.
pub fn check_freshness(
    config: &EscudoConfig,
    packages: &[PackageInfo],
    now: &Timestamp,
    known: &[CrateVersions],
) -> (result: FreshnessResult)
    ensures
        result.deep_view() == freshness_result(
            config.deep_view(),
            packages.deep_view(),
            now.deep_view(),
            known.deep_view(),
        ),
{
    let ghost all = packages.deep_view();
    let ghost fresh = is_fresh(config.deep_view(), now.deep_view(), known.deep_view());
    let ghost to_fresh = to_fresh_violation(
        config.deep_view(),
        now.deep_view(),
        known.deep_view(),
    );
    let ghost missing = is_unverified(config.deep_view(), now.deep_view(), known.deep_view());
    let mut violations: Vec<FreshnessViolation> = Vec::new();
    let mut unverified: Vec<UnverifiedCrate> = Vec::new();
    proof {
        select_ends(all, fresh, to_fresh);
        select_ends(all, missing, to_unverified());
    }
    let mut i: usize = 0;
    while i < packages.len()
        invariant
            i <= packages@.len(),
            all == packages.deep_view(),
            fresh == is_fresh(config.deep_view(), now.deep_view(), known.deep_view()),
            to_fresh == to_fresh_violation(
                config.deep_view(),
                now.deep_view(),
                known.deep_view(),
            ),
            missing == is_unverified(config.deep_view(), now.deep_view(), known.deep_view()),
            violations.deep_view() == select(all.take(i as int), fresh, to_fresh),
            unverified.deep_view() == select(all.take(i as int), missing, to_unverified()),
        decreases packages@.len() - i,
    {
        let ghost violations_so_far = violations.deep_view();
        let ghost unverified_so_far = unverified.deep_view();
        proof {
            select_step(all, fresh, to_fresh, i as int);
            select_step(all, missing, to_unverified(), i as int);
            assert(all[i as int] == packages@[i as int].deep_view());
        }
        let package = &packages[i];
        if from_crates_io(package) {
            match judge(config, package, now, known) {
                Standing::Unverified => {
                    let entry = UnverifiedCrate {
                        crate_name: package.name.clone(),
                        version: package.version.clone(),
                    };
                    unverified.push(entry);
                    assert(unverified.deep_view() =~= unverified_so_far.push(
                        to_unverified()(all[i as int]),
                    ));
                },
                Standing::Fresh(violation) => {
                    violations.push(violation);
                    assert(violations.deep_view() =~= violations_so_far.push(
                        to_fresh(all[i as int]),
                    ));
                },
                Standing::Settled => {},
            }
        }
        i = i + 1;
    }
    FreshnessResult { violations, unverified }
}

/// What is known of a crate is what the first entry of its name says.
pub proof fn known_versions_is_first(known: Seq<CrateVersionsView>, name: Seq<char>)
    ensures
        match known_versions(known, name) {
            Some(versions) => exists|i: int|
                0 <= i < known.len() && (#[trigger] known[i]).name == name && known[i].versions
                    == versions && forall|j: int| 0 <= j < i ==> (#[trigger] known[j]).name != name,
            None => forall|i: int| 0 <= i < known.len() ==> (#[trigger] known[i]).name != name,
        },
    decreases known.len(),
{
    if known.len() > 0 && known[0].name != name {
        let rest = known.skip(1);
        known_versions_is_first(rest, name);
        match known_versions(rest, name) {
            Some(versions) => {
                let k = choose|i: int|
                    0 <= i < rest.len() && (#[trigger] rest[i]).name == name && rest[i].versions
                        == versions && forall|j: int|
                        0 <= j < i ==> (#[trigger] rest[j]).name != name;
                assert(known[k + 1] == rest[k]);
                assert forall|j: int| 0 <= j < k + 1 implies (#[trigger] known[j]).name != name by {
                    if j > 0 {
                        assert(rest[j - 1] == known[j]);
                    }
                }
            },
            None => {
                assert forall|i: int| 0 <= i < known.len() implies (#[trigger] known[i]).name
                    != name by {
                    if i > 0 {
                        assert(rest[i - 1] == known[i]);
                    }
                }
            },
        }
    }
}

/// A version that is found is one of the published ones and has the number
/// that was asked for; one that is not found is not published.
pub proof fn published_version_is_listed(versions: Seq<VersionInfoView>, num: Seq<char>)
    ensures
        match published_version(versions, num) {
            Some(info) => versions.contains(info) && info.num == num,
            None => forall|i: int| 0 <= i < versions.len() ==> (#[trigger] versions[i]).num != num,
        },
    decreases versions.len(),
{
    if versions.len() > 0 && versions[0].num != num {
        let rest = versions.skip(1);
        published_version_is_listed(rest, num);
        match published_version(rest, num) {
            Some(info) => {
                let k = choose|k: int| 0 <= k < rest.len() && rest[k] == info;
                assert(versions[k + 1] == info);
            },
            None => {
                assert forall|i: int| 0 <= i < versions.len() implies (#[trigger] versions[i]).num
                    != num by {
                    if i > 0 {
                        assert(rest[i - 1] == versions[i]);
                    }
                }
            },
        }
    } else if versions.len() > 0 {
        assert(versions.contains(versions[0]));
    }
}

/// The first exception for a crate sets its cooldown, whatever the general one
/// is.
pub proof fn exceptions_override(config: EscudoConfigView, name: Seq<char>, i: int)
    requires
        0 <= i < config.exceptions.len(),
        config.exceptions[i].crate_name == name,
        forall|j: int| 0 <= j < i ==> (#[trigger] config.exceptions[j]).crate_name != name,
    ensures
        cooldown_of(config, name) == config.exceptions[i].days,
{
    first_exception(config.exceptions, name, i);
}

/// A crate without an exception has the general cooldown.
pub proof fn no_exception_no_override(config: EscudoConfigView, name: Seq<char>)
    requires
        forall|j: int|
            0 <= j < config.exceptions.len() ==> (#[trigger] config.exceptions[j]).crate_name
                != name,
    ensures
        cooldown_of(config, name) == config.cooldown_days,
{
    first_exception(config.exceptions, name, config.exceptions.len() as int);
}

/// The index of the first exception is where the first exception is.
proof fn first_exception(exceptions: Seq<CrateExceptionView>, name: Seq<char>, i: int)
    requires
        0 <= i <= exceptions.len(),
        i < exceptions.len() ==> exceptions[i].crate_name == name,
        forall|j: int| 0 <= j < i ==> (#[trigger] exceptions[j]).crate_name != name,
    ensures
        exception_index(exceptions, name) == i,
    decreases exceptions.len(),
{
    if i > 0 {
        let rest = exceptions.skip(1);
        assert(exceptions[0].crate_name != name);
        assert forall|j: int| 0 <= j < i - 1 implies (#[trigger] rest[j]).crate_name != name by {
            assert(rest[j] == exceptions[j + 1]);
        }
        first_exception(rest, name, i - 1);
    }
}

/// The check is sound and complete: a version is reported as too fresh exactly
/// if it is that of a crates.io package that is too fresh, and as unverified
/// exactly if it is that of one that could not be verified.
pub proof fn freshness_is_exact(
    config: EscudoConfigView,
    packages: Seq<PackageInfoView>,
    now: Instant,
    known: Seq<CrateVersionsView>,
)
    ensures
        forall|violation: FreshnessViolationView| #[trigger]
            freshness_result(config, packages, now, known).violations.contains(violation)
                <==> made_from(
                packages,
                is_fresh(config, now, known),
                to_fresh_violation(config, now, known),
                violation,
            ),
        forall|entry: UnverifiedCrateView| #[trigger]
            freshness_result(config, packages, now, known).unverified.contains(entry)
                <==> made_from(
                packages,
                is_unverified(config, now, known),
                to_unverified(),
                entry,
            ),
{
    select_members(
        packages,
        is_fresh(config, now, known),
        to_fresh_violation(config, now, known),
    );
    select_members(packages, is_unverified(config, now, known), to_unverified());
}

/// A version that crates.io does not tell of is reported as unverified.
pub proof fn missing_versions_are_reported(
    config: EscudoConfigView,
    packages: Seq<PackageInfoView>,
    now: Instant,
    known: Seq<CrateVersionsView>,
    i: int,
)
    requires
        0 <= i < packages.len(),
        packages[i].source is CratesIo,
        match known_versions(known, packages[i].name) {
            Some(versions) => published_version(versions, packages[i].version) is None,
            None => true,
        },
    ensures
        freshness_result(config, packages, now, known).unverified.contains(
            UnverifiedCrateView { crate_name: packages[i].name, version: packages[i].version },
        ),
{
    freshness_is_exact(config, packages, now, known);
    let entry = to_unverified()(packages[i]);
    assert(is_unverified(config, now, known)(packages[i]));
    assert(made_from(packages, is_unverified(config, now, known), to_unverified(), entry));
}

/// A version with a publish date in the future is reported as unverified,
/// however long the cooldown is.
pub proof fn future_dates_are_rejected(
    config: EscudoConfigView,
    packages: Seq<PackageInfoView>,
    now: Instant,
    known: Seq<CrateVersionsView>,
    i: int,
)
    requires
        0 <= i < packages.len(),
        packages[i].source is CratesIo,
        known_versions(known, packages[i].name) is Some,
        published_version(
            known_versions(known, packages[i].name)->0,
            packages[i].version,
        ) is Some,
        later(
            published_version(
                known_versions(known, packages[i].name)->0,
                packages[i].version,
            )->0.created_at,
            now,
        ),
    ensures
        freshness_result(config, packages, now, known).unverified.contains(
            UnverifiedCrateView { crate_name: packages[i].name, version: packages[i].version },
        ),
{
    freshness_is_exact(config, packages, now, known);
    let entry = to_unverified()(packages[i]);
    assert(is_unverified(config, now, known)(packages[i]));
    assert(made_from(packages, is_unverified(config, now, known), to_unverified(), entry));
}

/// Every publish date is one that a calendar date can be given for.
pub open spec fn dates_are_valid(known: Seq<CrateVersionsView>) -> bool {
    forall|i: int, j: int|
        0 <= i < known.len() && 0 <= j < known[i].versions.len() ==> (
        #[trigger] known[i].versions[j]).created_at.valid()
}

/// A cooldown of no days disables the freshness check for a crate.
pub proof fn zero_days_disables(
    config: EscudoConfigView,
    packages: Seq<PackageInfoView>,
    now: Instant,
    known: Seq<CrateVersionsView>,
    name: Seq<char>,
)
    requires
        now.valid(),
        dates_are_valid(known),
        cooldown_of(config, name) == 0,
    ensures
        forall|i: int|
            0 <= i < freshness_result(config, packages, now, known).violations.len() ==> (
            #[trigger] freshness_result(config, packages, now, known).violations[i]).crate_name
                != name,
{
    let found = freshness_result(config, packages, now, known).violations;
    let keep = is_fresh(config, now, known);
    let make = to_fresh_violation(config, now, known);
    freshness_is_exact(config, packages, now, known);
    assert forall|i: int| 0 <= i < found.len() implies (#[trigger] found[i]).crate_name != name by {
        assert(found.contains(found[i]));
        assert(made_from(packages, keep, make, found[i]));
        let k = choose|k: int|
            0 <= k < packages.len() && keep(#[trigger] packages[k]) && found[i] == make(
                packages[k],
            );
        let package = packages[k];
        if package.name == name {
            let versions = known_versions(known, name)->0;
            let info = published_version(versions, package.version)->0;
            known_versions_is_first(known, name);
            published_version_is_listed(versions, package.version);
            let at = choose|at: int|
                0 <= at < known.len() && (#[trigger] known[at]).name == name && known[at].versions
                    == versions && forall|j: int|
                    0 <= j < at ==> (#[trigger] known[j]).name != name;
            let v = choose|v: int| 0 <= v < versions.len() && versions[v] == info;
            assert(known[at].versions[v].created_at.valid());
            no_negative_age(now, info.created_at);
        }
    }
}

/// A version that was published is too fresh exactly while less time than its
/// cooldown has gone by.
pub proof fn fresh_means_younger(created_at: Instant, now: Instant, cooldown_days: u32)
    requires
        !later(created_at, now),
        cooldown_days > 0,
    ensures
        verdict_on_date(created_at, now, cooldown_days) is Fresh <==> elapsed_nanos(
            now,
            created_at,
        ) < cooldown_days * nanos_per_day(),
{
    age_in_nanos(now, created_at, cooldown_days as int);
}

/// What is too fresh for one cooldown is too fresh for a longer one.
pub proof fn longer_cooldowns_flag_more(
    created_at: Instant,
    now: Instant,
    shorter: u32,
    longer: u32,
)
    requires
        shorter <= longer,
        verdict_on_date(created_at, now, shorter) is Fresh,
    ensures
        verdict_on_date(created_at, now, longer) is Fresh,
{
}

/// What has settled stays settled, leap seconds left out.
pub proof fn settling_lasts(created_at: Instant, now: Instant, later_on: Instant, cooldown_days: u32)
    requires
        created_at.nanos < NANOS_PER_SEC,
        now.nanos < NANOS_PER_SEC,
        later_on.nanos < NANOS_PER_SEC,
        created_at.valid(),
        now.valid(),
        later_on.valid(),
        later(later_on, now),
        verdict_on_date(created_at, now, cooldown_days) is Settled,
    ensures
        verdict_on_date(created_at, later_on, cooldown_days) is Settled,
{
    no_negative_age(later_on, created_at);
    if cooldown_days > 0 {
        age_in_nanos(now, created_at, cooldown_days as int);
        age_in_nanos(later_on, created_at, cooldown_days as int);
    }
}

/// Whether a version can be verified does not depend on the configuration.
pub proof fn verification_needs_no_configuration(
    config: EscudoConfigView,
    other: EscudoConfigView,
    packages: Seq<PackageInfoView>,
    now: Instant,
    known: Seq<CrateVersionsView>,
)
    ensures
        freshness_result(config, packages, now, known).unverified == freshness_result(
            other,
            packages,
            now,
            known,
        ).unverified,
{
    assert(is_unverified(config, now, known) =~= is_unverified(other, now, known));
}

/// What is known of a crate is what the first entry of its name lists; where
/// there is none, nothing is known.
pub proof fn the_first_entry_counts(known: Seq<CrateVersionsView>, name: Seq<char>, k: int)
    requires
        0 <= k <= known.len(),
        k < known.len() ==> known[k].name == name,
        forall|j: int| 0 <= j < k ==> (#[trigger] known[j]).name != name,
    ensures
        known_versions(known, name) == (if k < known.len() {
            Some(known[k].versions)
        } else {
            None
        }),
    decreases known.len(),
{
    if k > 0 {
        let rest = known.skip(1);
        assert(known[0].name != name);
        assert forall|j: int| 0 <= j < k - 1 implies (#[trigger] rest[j]).name != name by {
            assert(rest[j] == known[j + 1]);
        }
        the_first_entry_counts(rest, name, k - 1);
    }
}

/// A version is looked up by its own number, the first that is listed; where
/// the number is not listed, there is none.
pub proof fn the_first_of_a_number_counts(versions: Seq<VersionInfoView>, num: Seq<char>, v: int)
    requires
        0 <= v <= versions.len(),
        v < versions.len() ==> versions[v].num == num,
        forall|j: int| 0 <= j < v ==> (#[trigger] versions[j]).num != num,
    ensures
        published_version(versions, num) == (if v < versions.len() {
            Some(versions[v])
        } else {
            None
        }),
    decreases versions.len(),
{
    if v > 0 {
        let rest = versions.skip(1);
        assert(versions[0].num != num);
        assert forall|j: int| 0 <= j < v - 1 implies (#[trigger] rest[j]).num != num by {
            assert(rest[j] == versions[j + 1]);
        }
        the_first_of_a_number_counts(rest, num, v - 1);
    }
}

/// A package is judged by the publish date of its own version: where its crate
/// is known and its version is listed with a date that is not in the future, it
/// is reported as too fresh exactly if fewer days than its cooldown have gone
/// by since that date, with that date and that age; and it is never reported as
/// unverified.
pub proof fn packages_are_judged_by_their_own_date(
    config: EscudoConfigView,
    packages: Seq<PackageInfoView>,
    now: Instant,
    known: Seq<CrateVersionsView>,
    i: int,
    k: int,
    v: int,
)
    requires
        0 <= i < packages.len(),
        packages[i].source is CratesIo,
        0 <= k < known.len(),
        known[k].name == packages[i].name,
        forall|j: int| 0 <= j < k ==> (#[trigger] known[j]).name != packages[i].name,
        0 <= v < known[k].versions.len(),
        known[k].versions[v].num == packages[i].version,
        forall|j: int|
            0 <= j < v ==> (#[trigger] known[k].versions[j]).num != packages[i].version,
        known[k].versions[v].created_at.secs < now.secs || (known[k].versions[v].created_at.secs
            == now.secs && known[k].versions[v].created_at.nanos <= now.nanos),
    ensures
        elapsed_days(now, known[k].versions[v].created_at) < cooldown_of(config, packages[i].name)
            ==> freshness_result(config, packages, now, known).violations.contains(
            FreshnessViolationView {
                crate_name: packages[i].name,
                version: packages[i].version,
                published: known[k].versions[v].created_at,
                age_days: elapsed_days(now, known[k].versions[v].created_at),
                cooldown_days: cooldown_of(config, packages[i].name),
            },
        ),
        forall|x: FreshnessViolationView|
            #![trigger freshness_result(config, packages, now, known).violations.contains(x)]
            freshness_result(config, packages, now, known).violations.contains(x) && x.crate_name
                == packages[i].name && x.version == packages[i].version ==> {
                &&& elapsed_days(now, known[k].versions[v].created_at) < cooldown_of(
                    config,
                    packages[i].name,
                )
                &&& x.published == known[k].versions[v].created_at
                &&& x.age_days == elapsed_days(now, known[k].versions[v].created_at)
                &&& x.cooldown_days == cooldown_of(config, packages[i].name)
            },
        !freshness_result(config, packages, now, known).unverified.contains(
            UnverifiedCrateView { crate_name: packages[i].name, version: packages[i].version },
        ),
{
    let package = packages[i];
    let fresh = is_fresh(config, now, known);
    let to_fresh = to_fresh_violation(config, now, known);
    let missing = is_unverified(config, now, known);
    let result = freshness_result(config, packages, now, known);
    the_first_entry_counts(known, package.name, k);
    the_first_of_a_number_counts(known[k].versions, package.version, v);
    freshness_is_exact(config, packages, now, known);
    if elapsed_days(now, known[k].versions[v].created_at) < cooldown_of(config, package.name) {
        assert(fresh(package));
        assert(made_from(packages, fresh, to_fresh, to_fresh(package)));
    }
    assert forall|x: FreshnessViolationView|
        #![trigger result.violations.contains(x)]
        result.violations.contains(x) && x.crate_name == package.name && x.version
            == package.version implies {
        &&& elapsed_days(now, known[k].versions[v].created_at) < cooldown_of(config, package.name)
        &&& x.published == known[k].versions[v].created_at
        &&& x.age_days == elapsed_days(now, known[k].versions[v].created_at)
        &&& x.cooldown_days == cooldown_of(config, package.name)
    } by {
        assert(made_from(packages, fresh, to_fresh, x));
        let j = choose|j: int|
            0 <= j < packages.len() && fresh(#[trigger] packages[j]) && x == to_fresh(packages[j]);
        assert(packages[j].name == package.name);
    }
    let entry = UnverifiedCrateView { crate_name: package.name, version: package.version };
    if result.unverified.contains(entry) {
        assert(made_from(packages, missing, to_unverified(), entry));
        let j = choose|j: int|
            0 <= j < packages.len() && missing(#[trigger] packages[j]) && entry == to_unverified()(
                packages[j],
            );
        assert(packages[j].name == package.name);
    }
}

/// A package cannot be verified where its crate is not known, its version is
/// not listed, or the date of its version is in the future: then it is reported
/// as that, and never as too fresh.
pub proof fn what_cannot_be_verified(
    config: EscudoConfigView,
    packages: Seq<PackageInfoView>,
    now: Instant,
    known: Seq<CrateVersionsView>,
    i: int,
    k: int,
    v: int,
)
    requires
        0 <= i < packages.len(),
        packages[i].source is CratesIo,
        0 <= k <= known.len(),
        k < known.len() ==> known[k].name == packages[i].name,
        forall|j: int| 0 <= j < k ==> (#[trigger] known[j]).name != packages[i].name,
        k < known.len() ==> {
            &&& 0 <= v <= known[k].versions.len()
            &&& forall|j: int|
                0 <= j < v ==> (#[trigger] known[k].versions[j]).num != packages[i].version
            &&& v < known[k].versions.len() ==> {
                &&& known[k].versions[v].num == packages[i].version
                &&& known[k].versions[v].created_at.secs > now.secs || (
                known[k].versions[v].created_at.secs == now.secs
                    && known[k].versions[v].created_at.nanos > now.nanos)
            }
        },
    ensures
        freshness_result(config, packages, now, known).unverified.contains(
            UnverifiedCrateView { crate_name: packages[i].name, version: packages[i].version },
        ),
        forall|x: FreshnessViolationView|
            #![trigger freshness_result(config, packages, now, known).violations.contains(x)]
            freshness_result(config, packages, now, known).violations.contains(x) ==> x.crate_name
                != packages[i].name || x.version != packages[i].version,
{
    let package = packages[i];
    let fresh = is_fresh(config, now, known);
    let to_fresh = to_fresh_violation(config, now, known);
    let missing = is_unverified(config, now, known);
    let result = freshness_result(config, packages, now, known);
    the_first_entry_counts(known, package.name, k);
    if k < known.len() {
        the_first_of_a_number_counts(known[k].versions, package.version, v);
    }
    freshness_is_exact(config, packages, now, known);
    assert(missing(package));
    assert(made_from(packages, missing, to_unverified(), to_unverified()(package)));
    assert forall|x: FreshnessViolationView|
        #![trigger result.violations.contains(x)]
        result.violations.contains(x) implies x.crate_name != package.name || x.version
        != package.version by {
        assert(made_from(packages, fresh, to_fresh, x));
        let j = choose|j: int|
            0 <= j < packages.len() && fresh(#[trigger] packages[j]) && x == to_fresh(packages[j]);
        if packages[j].name == package.name && packages[j].version == package.version {
            assert(verdict(config, now, known, packages[j]) == verdict(
                config,
                now,
                known,
                package,
            ));
        }
    }
}

/// Only packages from crates.io are reported, by their name and version.
pub proof fn only_crates_io_packages_are_reported(
    config: EscudoConfigView,
    packages: Seq<PackageInfoView>,
    now: Instant,
    known: Seq<CrateVersionsView>,
)
    ensures
        forall|x: FreshnessViolationView|
            #![trigger freshness_result(config, packages, now, known).violations.contains(x)]
            freshness_result(config, packages, now, known).violations.contains(x) ==> exists|i: int|
                0 <= i < packages.len() && (#[trigger] packages[i]).source is CratesIo
                    && packages[i].name == x.crate_name && packages[i].version == x.version,
        forall|x: UnverifiedCrateView|
            #![trigger freshness_result(config, packages, now, known).unverified.contains(x)]
            freshness_result(config, packages, now, known).unverified.contains(x) ==> exists|i: int|
                0 <= i < packages.len() && (#[trigger] packages[i]).source is CratesIo
                    && packages[i].name == x.crate_name && packages[i].version == x.version,
{
    let fresh = is_fresh(config, now, known);
    let to_fresh = to_fresh_violation(config, now, known);
    let missing = is_unverified(config, now, known);
    let result = freshness_result(config, packages, now, known);
    freshness_is_exact(config, packages, now, known);
    assert forall|x: FreshnessViolationView|
        #![trigger result.violations.contains(x)]
        result.violations.contains(x) implies exists|i: int|
        0 <= i < packages.len() && (#[trigger] packages[i]).source is CratesIo && packages[i].name
            == x.crate_name && packages[i].version == x.version by {
        assert(made_from(packages, fresh, to_fresh, x));
        let j = choose|j: int|
            0 <= j < packages.len() && fresh(#[trigger] packages[j]) && x == to_fresh(packages[j]);
        assert(packages[j].source is CratesIo);
    }
    assert forall|x: UnverifiedCrateView|
        #![trigger result.unverified.contains(x)]
        result.unverified.contains(x) implies exists|i: int|
        0 <= i < packages.len() && (#[trigger] packages[i]).source is CratesIo && packages[i].name
            == x.crate_name && packages[i].version == x.version by {
        assert(made_from(packages, missing, to_unverified(), x));
        let j = choose|j: int|
            0 <= j < packages.len() && missing(#[trigger] packages[j]) && x == to_unverified()(
                packages[j],
            );
        assert(packages[j].source is CratesIo);
    }
}

/// The check goes package by package: what is found among the packages of two
/// lists is what is found among the one, then what is found among the other.
pub proof fn freshness_goes_package_by_package(
    config: EscudoConfigView,
    a: Seq<PackageInfoView>,
    b: Seq<PackageInfoView>,
    now: Instant,
    known: Seq<CrateVersionsView>,
)
    ensures
        freshness_result(config, a + b, now, known).violations == freshness_result(
            config,
            a,
            now,
            known,
        ).violations + freshness_result(config, b, now, known).violations,
        freshness_result(config, a + b, now, known).unverified == freshness_result(
            config,
            a,
            now,
            known,
        ).unverified + freshness_result(config, b, now, known).unverified,
{
    select_goes_part_by_part(
        a,
        b,
        is_fresh(config, now, known),
        to_fresh_violation(config, now, known),
    );
    select_goes_part_by_part(a, b, is_unverified(config, now, known), to_unverified());
}

/// A package is reported at most once: as too fresh, or as unverified, or not
/// at all.
pub proof fn one_report_for_one_package(
    config: EscudoConfigView,
    package: PackageInfoView,
    now: Instant,
    known: Seq<CrateVersionsView>,
)
    ensures
        freshness_result(config, seq![package], now, known).violations.len() + freshness_result(
            config,
            seq![package],
            now,
            known,
        ).unverified.len() <= 1,
{
    select_of_one(
        package,
        is_fresh(config, now, known),
        to_fresh_violation(config, now, known),
    );
    select_of_one(package, is_unverified(config, now, known), to_unverified());
}

/// A valid name has one to sixty-four characters, each of them an ASCII letter,
/// an ASCII digit, a hyphen or an underscore.
pub proof fn which_names_are_valid(name: Seq<char>)
    ensures
        valid_crate_name(name) <==> {
            &&& 1 <= name.len() <= 64
            &&& forall|i: int|
                0 <= i < name.len() ==> {
                    ||| 48 <= #[trigger] name[i] as int <= 57
                    ||| 65 <= name[i] as int <= 90
                    ||| 97 <= name[i] as int <= 122
                    ||| name[i] as int == 45
                    ||| name[i] as int == 95
                }
        },
{
    if valid_crate_name(name) {
        assert forall|i: int| 0 <= i < name.len() implies {
            ||| 48 <= #[trigger] name[i] as int <= 57
            ||| 65 <= name[i] as int <= 90
            ||| 97 <= name[i] as int <= 122
            ||| name[i] as int == 45
            ||| name[i] as int == 95
        } by {
            assert(is_name_char(name[i]));
        }
    }
}

} // verus!
