//! The policy rules: git and path sources, duplicate versions, banned crates
//! and licenses.

use vstd::prelude::*;

use crate::config::{default_config, EscudoConfig, EscudoConfigView};
use crate::license::{license_allowed, license_is_acceptable};
use crate::metadata::{
    contains_string, duplicate_versions, duplicates_are_ascending, duplicates_are_exact,
    duplicates_in_plain_terms, find_duplicate_versions, git_sources, is_third_party,
    package_info_of, path_sources, third_party, to_package_info, versions_of, PackageInfo,
    PackageInfoView, PackageSource, PackageSourceView, ResolvedPackageView,
};
use crate::numeral::{decimal, decimal_text};
use crate::select::{
    concatenation_holds, filter_of_all, filter_of_none, made_from, select, select_ends,
    select_goes_part_by_part, select_holds, select_keeps_order, select_members, select_of_one,
    select_origin, select_step,
};
use crate::order::before;
use crate::text::{contains_text, join_text, joined, parts_are_contained};

verus! {

/// A single policy violation discovered during the audit.
#[derive(Debug, Clone)]
pub enum PolicyViolation {
    /// A dependency is sourced from a git repository, but git deps are not allowed.
    GitDependency { name: String, url: String },
    /// A dependency is sourced from a local path, but path deps are not allowed.
    PathDependency { name: String, path: String },
    /// More versions of a single crate exist in the tree than the policy permits.
    DuplicateVersions { name: String, versions: Vec<String>, max_allowed: u32 },
    /// A dependency matches an entry on the explicit ban list.
    BannedCrate { name: String, version: String },
    /// A dependency's license is missing or not in the set of allowed licenses.
    DisallowedLicense { name: String, version: String, license: Option<String> },
}

/// Model of a [`PolicyViolation`].
pub enum PolicyViolationView {
    GitDependency { name: Seq<char>, url: Seq<char> },
    PathDependency { name: Seq<char>, path: Seq<char> },
    DuplicateVersions { name: Seq<char>, versions: Seq<Seq<char>>, max_allowed: u32 },
    BannedCrate { name: Seq<char>, version: Seq<char> },
    DisallowedLicense { name: Seq<char>, version: Seq<char>, license: Option<Seq<char>> },
}

impl DeepView for PolicyViolation {
    type V = PolicyViolationView;

    open spec fn deep_view(&self) -> PolicyViolationView {
        match *self {
            PolicyViolation::GitDependency { name, url } => PolicyViolationView::GitDependency {
                name: name@,
                url: url@,
            },
            PolicyViolation::PathDependency { name, path } => PolicyViolationView::PathDependency {
                name: name@,
                path: path@,
            },
            PolicyViolation::DuplicateVersions { name, versions, max_allowed } =>
                PolicyViolationView::DuplicateVersions {
                name: name@,
                versions: versions.deep_view(),
                max_allowed,
            },
            PolicyViolation::BannedCrate { name, version } => PolicyViolationView::BannedCrate {
                name: name@,
                version: version@,
            },
            PolicyViolation::DisallowedLicense { name, version, license } =>
                PolicyViolationView::DisallowedLicense {
                name: name@,
                version: version@,
                license: license.deep_view(),
            },
        }
    }
}

/// The message that describes a violation.
pub open spec fn policy_message(violation: PolicyViolationView) -> Seq<char> {
    match violation {
        PolicyViolationView::GitDependency { name, url } => "git dependency not allowed: "@ + name
            + " (from "@ + url + ")"@,
        PolicyViolationView::PathDependency { name, path } => "path dependency not allowed: "@
            + name + " (at "@ + path + ")"@,
        PolicyViolationView::DuplicateVersions { name, versions, max_allowed } =>
            "too many versions of "@ + name + ": found "@ + decimal(versions.len()) + " ("@
            + joined(versions, ", "@) + ") but at most "@ + decimal(max_allowed as nat)
            + " allowed"@,
        PolicyViolationView::BannedCrate { name, version } => "banned crate: "@ + name + " v"@
            + version,
        PolicyViolationView::DisallowedLicense { name, version, license } => match license {
            Some(lic) => "license not allowed for "@ + name + " v"@ + version + ": \""@ + lic
                + "\""@,
            None => "no license specified for "@ + name + " v"@ + version,
        },
    }
}

impl PolicyViolation {
    /// The message that describes the violation.
    pub fn to_string(&self) -> (message: String)
        ensures
            message@ == policy_message(self.deep_view()),
    {
        match self {
            PolicyViolation::GitDependency { name, url } => {
                let mut m = "git dependency not allowed: ".to_owned();
                m.append(name.as_str());
                m.append(" (from ");
                m.append(url.as_str());
                m.append(")");
                m
            },
            PolicyViolation::PathDependency { name, path } => {
                let mut m = "path dependency not allowed: ".to_owned();
                m.append(name.as_str());
                m.append(" (at ");
                m.append(path.as_str());
                m.append(")");
                m
            },
            PolicyViolation::DuplicateVersions { name, versions, max_allowed } => {
                let mut m = "too many versions of ".to_owned();
                m.append(name.as_str());
                m.append(": found ");
                m.append(decimal_text(versions.len() as u128).as_str());
                m.append(" (");
                m.append(join_text(versions.as_slice(), ", ").as_str());
                m.append(") but at most ");
                m.append(decimal_text(*max_allowed as u128).as_str());
                m.append(" allowed");
                m
            },
            PolicyViolation::BannedCrate { name, version } => {
                let mut m = "banned crate: ".to_owned();
                m.append(name.as_str());
                m.append(" v");
                m.append(version.as_str());
                m
            },
            PolicyViolation::DisallowedLicense { name, version, license } => match license {
                Some(lic) => {
                    let mut m = "license not allowed for ".to_owned();
                    m.append(name.as_str());
                    m.append(" v");
                    m.append(version.as_str());
                    m.append(": \"");
                    m.append(lic.as_str());
                    m.append("\"");
                    m
                },
                None => {
                    let mut m = "no license specified for ".to_owned();
                    m.append(name.as_str());
                    m.append(" v");
                    m.append(version.as_str());
                    m
                },
            },
        }
    }
}

/// The package comes from a git repository.
pub open spec fn is_git() -> spec_fn(PackageInfoView) -> bool {
    |package: PackageInfoView| package.source is Git
}

/// The violation for a package from a git repository.
pub open spec fn to_git_violation() -> spec_fn(PackageInfoView) -> PolicyViolationView {
    |package: PackageInfoView|
        PolicyViolationView::GitDependency { name: package.name, url: package.source->url }
}

/// The git dependencies, where they are not allowed.
pub open spec fn git_violations(
    config: EscudoConfigView,
    packages: Seq<PackageInfoView>,
) -> Seq<PolicyViolationView> {
    if config.allow_git_deps {
        Seq::empty()
    } else {
        select(packages, is_git(), to_git_violation())
    }
}

/// Flag any git-sourced dependency when `allow_git_deps` is false.
pub fn check_git_deps(
    config: &EscudoConfig,
    packages: &[PackageInfo],
    violations: &mut Vec<PolicyViolation>,
)
    ensures
        final(violations).deep_view() == old(violations).deep_view() + git_violations(
            config.deep_view(),
            packages.deep_view(),
        ),
{
    let ghost all = packages.deep_view();
    let ghost given = violations.deep_view();
    let ghost keep = is_git();
    let ghost make = to_git_violation();
    if config.allow_git_deps {
        assert(given + Seq::empty() =~= given);
        return;
    }
    proof {
        select_ends(all, keep, make);
        assert(given + Seq::empty() =~= given);
    }
    let mut i: usize = 0;
    while i < packages.len()
        invariant
            i <= packages@.len(),
            all == packages.deep_view(),
            keep == is_git(),
            make == to_git_violation(),
            violations.deep_view() == given + select(all.take(i as int), keep, make),
        decreases packages@.len() - i,
    {
        let ghost earlier = violations.deep_view();
        proof {
            select_step(all, keep, make, i as int);
            assert(all[i as int] == packages@[i as int].deep_view());
        }
        if let PackageSource::Git { url } = &packages[i].source {
            let found = PolicyViolation::GitDependency {
                name: packages[i].name.clone(),
                url: url.clone(),
            };
            violations.push(found);
            assert(violations.deep_view() =~= earlier.push(make(all[i as int])));
            assert(violations.deep_view() =~= given + select(all.take(i + 1), keep, make));
        }
        i = i + 1;
    }
}

/// The package comes from a local path.
pub open spec fn is_path() -> spec_fn(PackageInfoView) -> bool {
    |package: PackageInfoView| package.source is Path
}

/// The violation for a package from a local path.
pub open spec fn to_path_violation() -> spec_fn(PackageInfoView) -> PolicyViolationView {
    |package: PackageInfoView|
        PolicyViolationView::PathDependency { name: package.name, path: package.source->path }
}

/// The path dependencies, where they are not allowed.
pub open spec fn path_violations(
    config: EscudoConfigView,
    packages: Seq<PackageInfoView>,
) -> Seq<PolicyViolationView> {
    if config.allow_path_deps {
        Seq::empty()
    } else {
        select(packages, is_path(), to_path_violation())
    }
}

/// Flag any path-sourced dependency when `allow_path_deps` is false.
pub fn check_path_deps(
    config: &EscudoConfig,
    packages: &[PackageInfo],
    violations: &mut Vec<PolicyViolation>,
)
    ensures
        final(violations).deep_view() == old(violations).deep_view() + path_violations(
            config.deep_view(),
            packages.deep_view(),
        ),
{
    let ghost all = packages.deep_view();
    let ghost given = violations.deep_view();
    let ghost keep = is_path();
    let ghost make = to_path_violation();
    if config.allow_path_deps {
        assert(given + Seq::empty() =~= given);
        return;
    }
    proof {
        select_ends(all, keep, make);
        assert(given + Seq::empty() =~= given);
    }
    let mut i: usize = 0;
    while i < packages.len()
        invariant
            i <= packages@.len(),
            all == packages.deep_view(),
            keep == is_path(),
            make == to_path_violation(),
            violations.deep_view() == given + select(all.take(i as int), keep, make),
        decreases packages@.len() - i,
    {
        let ghost earlier = violations.deep_view();
        proof {
            select_step(all, keep, make, i as int);
            assert(all[i as int] == packages@[i as int].deep_view());
        }
        if let PackageSource::Path { path } = &packages[i].source {
            let found = PolicyViolation::PathDependency {
                name: packages[i].name.clone(),
                path: path.clone(),
            };
            violations.push(found);
            assert(violations.deep_view() =~= earlier.push(make(all[i as int])));
            assert(violations.deep_view() =~= given + select(all.take(i + 1), keep, make));
        }
        i = i + 1;
    }
}

/// The crate occurs in more versions than `max`.
pub open spec fn exceeds(max: u32) -> spec_fn((Seq<char>, Seq<Seq<char>>)) -> bool {
    |entry: (Seq<char>, Seq<Seq<char>>)| entry.1.len() > max
}

/// The violation for a crate that occurs in too many versions.
pub open spec fn to_duplicate_violation(max: u32) -> spec_fn((Seq<char>, Seq<Seq<char>>)) ->
    PolicyViolationView {
    |entry: (Seq<char>, Seq<Seq<char>>)|
        PolicyViolationView::DuplicateVersions {
            name: entry.0,
            versions: entry.1,
            max_allowed: max,
        }
}

/// The crates that occur in more versions than allowed, where there is a limit.
pub open spec fn duplicate_violations(
    config: EscudoConfigView,
    packages: Seq<PackageInfoView>,
) -> Seq<PolicyViolationView> {
    match config.max_duplicate_versions {
        Some(max) => select(
            duplicate_versions(packages),
            exceeds(max),
            to_duplicate_violation(max),
        ),
        None => Seq::empty(),
    }
}

/// Flag crate names that appear with more distinct versions than the policy
/// allows.
pub fn check_duplicates(
    config: &EscudoConfig,
    packages: &[PackageInfo],
    violations: &mut Vec<PolicyViolation>,
)
    ensures
        final(violations).deep_view() == old(violations).deep_view() + duplicate_violations(
            config.deep_view(),
            packages.deep_view(),
        ),
{
    let ghost given = violations.deep_view();
    let max: u32 = match config.max_duplicate_versions {
        Some(max) => max,
        None => {
            assert(given + Seq::empty() =~= given);
            return;
        },
    };
    let duplicates = find_duplicate_versions(packages);
    let ghost all = duplicates.deep_view();
    let ghost keep = exceeds(max);
    let ghost make = to_duplicate_violation(max);
    proof {
        select_ends(all, keep, make);
        assert(given + Seq::empty() =~= given);
    }
    let mut i: usize = 0;
    while i < duplicates.len()
        invariant
            i <= duplicates@.len(),
            all == duplicates.deep_view(),
            keep == exceeds(max),
            make == to_duplicate_violation(max),
            violations.deep_view() == given + select(all.take(i as int), keep, make),
        decreases duplicates@.len() - i,
    {
        let ghost earlier = violations.deep_view();
        proof {
            select_step(all, keep, make, i as int);
            assert(all[i as int] == duplicates@[i as int].deep_view());
        }
        let versions = &duplicates[i].1;
        assert(versions@.len() == versions.deep_view().len());
        if versions.len() > max as usize {
            let found = PolicyViolation::DuplicateVersions {
                name: duplicates[i].0.clone(),
                versions: versions.clone(),
                max_allowed: max,
            };
            assert(found->versions.deep_view() =~= versions.deep_view());
            violations.push(found);
            assert(violations.deep_view() =~= earlier.push(make(all[i as int])));
            assert(violations.deep_view() =~= given + select(all.take(i + 1), keep, make));
        }
        i = i + 1;
    }
}

/// The package's crate is on the ban list.
pub open spec fn is_banned(config: EscudoConfigView) -> spec_fn(PackageInfoView) -> bool {
    |package: PackageInfoView| config.banned_crates.contains(package.name)
}

/// The violation for a package of a banned crate.
pub open spec fn to_banned_violation() -> spec_fn(PackageInfoView) -> PolicyViolationView {
    |package: PackageInfoView|
        PolicyViolationView::BannedCrate { name: package.name, version: package.version }
}

/// The packages whose crate is banned.
pub open spec fn banned_violations(
    config: EscudoConfigView,
    packages: Seq<PackageInfoView>,
) -> Seq<PolicyViolationView> {
    if config.banned_crates.len() == 0 {
        Seq::empty()
    } else {
        select(packages, is_banned(config), to_banned_violation())
    }
}

/// Flag any package whose name appears on the ban list.
pub fn check_banned(
    config: &EscudoConfig,
    packages: &[PackageInfo],
    violations: &mut Vec<PolicyViolation>,
)
    ensures
        final(violations).deep_view() == old(violations).deep_view() + banned_violations(
            config.deep_view(),
            packages.deep_view(),
        ),
{
    let ghost all = packages.deep_view();
    let ghost given = violations.deep_view();
    let ghost keep = is_banned(config.deep_view());
    let ghost make = to_banned_violation();
    if config.banned_crates.is_empty() {
        assert(given + Seq::empty() =~= given);
        return;
    }
    proof {
        select_ends(all, keep, make);
        assert(given + Seq::empty() =~= given);
    }
    let mut i: usize = 0;
    while i < packages.len()
        invariant
            i <= packages@.len(),
            all == packages.deep_view(),
            keep == is_banned(config.deep_view()),
            make == to_banned_violation(),
            violations.deep_view() == given + select(all.take(i as int), keep, make),
        decreases packages@.len() - i,
    {
        let ghost earlier = violations.deep_view();
        proof {
            select_step(all, keep, make, i as int);
            assert(all[i as int] == packages@[i as int].deep_view());
        }
        if contains_string(config.banned_crates.as_slice(), packages[i].name.as_str()) {
            let found = PolicyViolation::BannedCrate {
                name: packages[i].name.clone(),
                version: packages[i].version.clone(),
            };
            violations.push(found);
            assert(violations.deep_view() =~= earlier.push(make(all[i as int])));
            assert(violations.deep_view() =~= given + select(all.take(i + 1), keep, make));
        }
        i = i + 1;
    }
}

/// The package is from crates.io and has no license that is allowed.
pub open spec fn has_disallowed_license(config: EscudoConfigView) -> spec_fn(PackageInfoView) -> bool {
    |package: PackageInfoView|
    {
        &&& package.source is CratesIo
        &&& match package.license {
            Some(expression) => !license_allowed(expression, config.allowed_licenses),
            None => true,
        }
    }
}

/// The violation for a package without an allowed license.
pub open spec fn to_license_violation() -> spec_fn(PackageInfoView) -> PolicyViolationView {
    |package: PackageInfoView|
        PolicyViolationView::DisallowedLicense {
            name: package.name,
            version: package.version,
            license: package.license,
        }
}

/// The crates.io packages whose license is missing or not allowed, where there
/// is a list of allowed licenses.
pub open spec fn license_violations(
    config: EscudoConfigView,
    packages: Seq<PackageInfoView>,
) -> Seq<PolicyViolationView> {
    if config.allowed_licenses.len() == 0 {
        Seq::empty()
    } else {
        select(packages, has_disallowed_license(config), to_license_violation())
    }
}

/// Check that every crates.io package carries a license present in the allowed
/// set.  License expressions using "/" or "OR" as separators are split so that
/// compound expressions like "MIT OR Apache-2.0" pass when either component is
/// allowed.
pub fn check_licenses(
    config: &EscudoConfig,
    packages: &[PackageInfo],
    violations: &mut Vec<PolicyViolation>,
)
    ensures
        final(violations).deep_view() == old(violations).deep_view() + license_violations(
            config.deep_view(),
            packages.deep_view(),
        ),
{
    let ghost all = packages.deep_view();
    let ghost given = violations.deep_view();
    let ghost keep = has_disallowed_license(config.deep_view());
    let ghost make = to_license_violation();
    if config.allowed_licenses.is_empty() {
        assert(given + Seq::empty() =~= given);
        return;
    }
    proof {
        select_ends(all, keep, make);
        assert(given + Seq::empty() =~= given);
    }
    let mut i: usize = 0;
    while i < packages.len()
        invariant
            i <= packages@.len(),
            all == packages.deep_view(),
            keep == has_disallowed_license(config.deep_view()),
            make == to_license_violation(),
            violations.deep_view() == given + select(all.take(i as int), keep, make),
        decreases packages@.len() - i,
    {
        let ghost earlier = violations.deep_view();
        proof {
            select_step(all, keep, make, i as int);
            assert(all[i as int] == packages@[i as int].deep_view());
        }
        let is_acceptable = match &packages[i].license {
            Some(license_expr) => license_is_acceptable(
                license_expr.as_str(),
                config.allowed_licenses.as_slice(),
            ),
            None => false,
        };
        // Only enforce license policy on crates.io packages.
        if matches!(packages[i].source, PackageSource::CratesIo) && !is_acceptable {
            let found = PolicyViolation::DisallowedLicense {
                name: packages[i].name.clone(),
                version: packages[i].version.clone(),
                license: packages[i].license.clone(),
            };
            violations.push(found);
            assert(violations.deep_view() =~= earlier.push(make(all[i as int])));
            assert(violations.deep_view() =~= given + select(all.take(i + 1), keep, make));
        }
        i = i + 1;
    }
}

/// Everything that the policy objects to, rule by rule.
pub open spec fn policy_violations(
    config: EscudoConfigView,
    packages: Seq<PackageInfoView>,
) -> Seq<PolicyViolationView> {
    git_violations(config, packages) + path_violations(config, packages) + duplicate_violations(
        config,
        packages,
    ) + banned_violations(config, packages) + license_violations(config, packages)
}

/// Run every configured policy check against the resolved package list and
/// return all violations found.
pub fn check_policies(config: &EscudoConfig, packages: &[PackageInfo]) -> (violations: Vec<
    PolicyViolation,
>)
    ensures
        violations.deep_view() == policy_violations(config.deep_view(), packages.deep_view()),
{
    let mut violations: Vec<PolicyViolation> = Vec::new();
    let ghost git = git_violations(config.deep_view(), packages.deep_view());
    check_git_deps(config, packages, &mut violations);
    assert(violations.deep_view() =~= git);
    check_path_deps(config, packages, &mut violations);
    check_duplicates(config, packages, &mut violations);
    check_banned(config, packages, &mut violations);
    check_licenses(config, packages, &mut violations);
    violations
}

/// The violation is one that the configuration makes of the packages.
pub open spec fn is_called_for(
    config: EscudoConfigView,
    packages: Seq<PackageInfoView>,
    violation: PolicyViolationView,
) -> bool {
    match violation {
        PolicyViolationView::GitDependency { .. } => !config.allow_git_deps && made_from(
            packages,
            is_git(),
            to_git_violation(),
            violation,
        ),
        PolicyViolationView::PathDependency { .. } => !config.allow_path_deps && made_from(
            packages,
            is_path(),
            to_path_violation(),
            violation,
        ),
        PolicyViolationView::DuplicateVersions { .. } => match config.max_duplicate_versions {
            Some(max) => made_from(
                duplicate_versions(packages),
                exceeds(max),
                to_duplicate_violation(max),
                violation,
            ),
            None => false,
        },
        PolicyViolationView::BannedCrate { .. } => made_from(
            packages,
            is_banned(config),
            to_banned_violation(),
            violation,
        ),
        PolicyViolationView::DisallowedLicense { .. } => config.allowed_licenses.len() > 0
            && made_from(
            packages,
            has_disallowed_license(config),
            to_license_violation(),
            violation,
        ),
    }
}

/// The checks are sound and complete: a violation is reported exactly if the
/// configuration calls for it.
pub proof fn policy_is_exact(
    config: EscudoConfigView,
    packages: Seq<PackageInfoView>,
    violation: PolicyViolationView,
)
    ensures
        policy_violations(config, packages).contains(violation) <==> is_called_for(
            config,
            packages,
            violation,
        ),
{
    let git = git_violations(config, packages);
    let path = path_violations(config, packages);
    let duplicate = duplicate_violations(config, packages);
    let banned = banned_violations(config, packages);
    let license = license_violations(config, packages);
    concatenation_holds(git, path, violation);
    concatenation_holds(git + path, duplicate, violation);
    concatenation_holds(git + path + duplicate, banned, violation);
    concatenation_holds(git + path + duplicate + banned, license, violation);
    select_members(packages, is_git(), to_git_violation());
    select_members(packages, is_path(), to_path_violation());
    select_members(packages, is_banned(config), to_banned_violation());
    select_members(packages, has_disallowed_license(config), to_license_violation());
    match config.max_duplicate_versions {
        Some(max) => {
            select_members(
                duplicate_versions(packages),
                exceeds(max),
                to_duplicate_violation(max),
            );
        },
        None => {},
    }
    assert(git.contains(violation) <==> !config.allow_git_deps && made_from(
        packages,
        is_git(),
        to_git_violation(),
        violation,
    ));
    assert(path.contains(violation) <==> !config.allow_path_deps && made_from(
        packages,
        is_path(),
        to_path_violation(),
        violation,
    ));
    assert(banned.contains(violation) <==> made_from(
        packages,
        is_banned(config),
        to_banned_violation(),
        violation,
    )) by {
        if config.banned_crates.len() == 0 && made_from(
            packages,
            is_banned(config),
            to_banned_violation(),
            violation,
        ) {
            let i = choose|i: int|
                0 <= i < packages.len() && is_banned(config)(#[trigger] packages[i]) && violation
                    == to_banned_violation()(packages[i]);
            assert(config.banned_crates.contains(packages[i].name));
        }
    }
    assert(license.contains(violation) <==> config.allowed_licenses.len() > 0 && made_from(
        packages,
        has_disallowed_license(config),
        to_license_violation(),
        violation,
    ));
}

/// With the default configuration, git and path dependencies are flagged, and
/// nothing else.
pub proof fn default_policy(packages: Seq<PackageInfoView>)
    ensures
        policy_violations(default_config(), packages) == select(
            packages,
            is_git(),
            to_git_violation(),
        ) + select(packages, is_path(), to_path_violation()),
{
    let git = select(packages, is_git(), to_git_violation());
    let path = select(packages, is_path(), to_path_violation());
    assert(policy_violations(default_config(), packages) =~= git + path);
}

/// A package from a git repository is flagged, where such packages are not
/// allowed: from the source string that dependency resolution gives to the
/// violation, whatever words the address holds.
pub proof fn git_dependencies_are_flagged(
    config: EscudoConfigView,
    resolved: Seq<ResolvedPackageView>,
    members: Seq<Seq<char>>,
    i: int,
    url: Seq<char>,
)
    requires
        !config.allow_git_deps,
        0 <= i < resolved.len(),
        !members.contains(resolved[i].id),
        resolved[i].source == Some("git+"@ + url),
    ensures
        policy_violations(config, third_party(resolved, members)).contains(
            PolicyViolationView::GitDependency { name: resolved[i].name, url },
        ),
{
    let packages = third_party(resolved, members);
    let violation = PolicyViolationView::GitDependency { name: resolved[i].name, url };
    git_sources(url);
    select_holds(resolved, is_third_party(members), to_package_info(), i);
    let k = choose|k: int|
        0 <= k < packages.len() && packages[k] == package_info_of(resolved[i]);
    assert(is_git()(packages[k]));
    assert(made_from(packages, is_git(), to_git_violation(), violation));
    policy_is_exact(config, packages, violation);
}

/// A package from a local path is flagged, where such packages are not allowed:
/// from the source string that dependency resolution gives to the violation,
/// whatever words the path holds.
pub proof fn path_dependencies_are_flagged(
    config: EscudoConfigView,
    resolved: Seq<ResolvedPackageView>,
    members: Seq<Seq<char>>,
    i: int,
    path: Seq<char>,
)
    requires
        !config.allow_path_deps,
        0 <= i < resolved.len(),
        !members.contains(resolved[i].id),
        resolved[i].source == Some("path+"@ + path),
    ensures
        policy_violations(config, third_party(resolved, members)).contains(
            PolicyViolationView::PathDependency { name: resolved[i].name, path },
        ),
{
    let packages = third_party(resolved, members);
    let violation = PolicyViolationView::PathDependency { name: resolved[i].name, path };
    path_sources(path);
    select_holds(resolved, is_third_party(members), to_package_info(), i);
    let k = choose|k: int|
        0 <= k < packages.len() && packages[k] == package_info_of(resolved[i]);
    assert(is_path()(packages[k]));
    assert(made_from(packages, is_path(), to_path_violation(), violation));
    policy_is_exact(config, packages, violation);
}

/// A package whose crate is banned is flagged, wherever it comes from.
pub proof fn banned_wherever_it_comes_from(
    config: EscudoConfigView,
    packages: Seq<PackageInfoView>,
    i: int,
)
    requires
        0 <= i < packages.len(),
        config.banned_crates.contains(packages[i].name),
    ensures
        policy_violations(config, packages).contains(
            PolicyViolationView::BannedCrate {
                name: packages[i].name,
                version: packages[i].version,
            },
        ),
{
    let violation = to_banned_violation()(packages[i]);
    assert(is_banned(config)(packages[i]));
    assert(made_from(packages, is_banned(config), to_banned_violation(), violation));
    policy_is_exact(config, packages, violation);
}

/// A crates.io package without an allowed license is flagged, where there is a
/// list of allowed licenses.
pub proof fn licenses_are_enforced(
    config: EscudoConfigView,
    packages: Seq<PackageInfoView>,
    i: int,
)
    requires
        0 <= i < packages.len(),
        config.allowed_licenses.len() > 0,
        has_disallowed_license(config)(packages[i]),
    ensures
        policy_violations(config, packages).contains(to_license_violation()(packages[i])),
{
    let violation = to_license_violation()(packages[i]);
    assert(made_from(packages, has_disallowed_license(config), to_license_violation(), violation));
    policy_is_exact(config, packages, violation);
}

/// The licenses of packages that are not from crates.io are not looked at.
pub proof fn licenses_only_of_crates_io(
    config: EscudoConfigView,
    packages: Seq<PackageInfoView>,
    name: Seq<char>,
    version: Seq<char>,
    license: Option<Seq<char>>,
)
    requires
        policy_violations(config, packages).contains(
            PolicyViolationView::DisallowedLicense { name, version, license },
        ),
    ensures
        exists|i: int|
            0 <= i < packages.len() && (#[trigger] packages[i]).source is CratesIo
                && packages[i].name == name && packages[i].version == version
                && packages[i].license == license,
{
    let violation = PolicyViolationView::DisallowedLicense { name, version, license };
    policy_is_exact(config, packages, violation);
    let i = choose|i: int|
        0 <= i < packages.len() && has_disallowed_license(config)(#[trigger] packages[i])
            && violation == to_license_violation()(packages[i]);
    assert(packages[i].source is CratesIo);
}

/// A crate is flagged for its versions exactly if there are more of them than
/// the limit, and several of them at all.
pub proof fn duplicates_beyond_the_limit(
    config: EscudoConfigView,
    packages: Seq<PackageInfoView>,
    name: Seq<char>,
    max: u32,
)
    requires
        config.max_duplicate_versions == Some(max),
    ensures
        policy_violations(config, packages).contains(
            PolicyViolationView::DuplicateVersions {
                name,
                versions: versions_of(packages, name),
                max_allowed: max,
            },
        ) <==> versions_of(packages, name).len() > max && versions_of(packages, name).len() > 1,
{
    let versions = versions_of(packages, name);
    let violation = PolicyViolationView::DuplicateVersions { name, versions, max_allowed: max };
    let entries = duplicate_versions(packages);
    let keep = exceeds(max);
    let make = to_duplicate_violation(max);
    policy_is_exact(config, packages, violation);
    duplicates_are_exact(packages, name, versions);
    if versions.len() > max && versions.len() > 1 {
        let k = choose|k: int| 0 <= k < entries.len() && entries[k] == (name, versions);
        assert(keep(entries[k]));
        assert(made_from(entries, keep, make, violation));
    }
    if made_from(entries, keep, make, violation) {
        let k = choose|k: int|
            0 <= k < entries.len() && keep(#[trigger] entries[k]) && violation == make(entries[k]);
        assert(entries[k].0 == name && entries[k].1 == versions);
        assert(entries[k] == (name, versions));
        assert(entries.contains((name, versions)));
    }
}

/// In plain terms: a git dependency is flagged exactly if git dependencies are
/// not allowed and a package of that name comes from that address.
pub proof fn which_git_dependencies_are_flagged(
    config: EscudoConfigView,
    packages: Seq<PackageInfoView>,
    name: Seq<char>,
    url: Seq<char>,
)
    ensures
        policy_violations(config, packages).contains(
            PolicyViolationView::GitDependency { name, url },
        ) <==> !config.allow_git_deps && exists|i: int|
            0 <= i < packages.len() && (#[trigger] packages[i]).name == name && packages[i].source
                == (PackageSourceView::Git { url }),
{
    let violation = PolicyViolationView::GitDependency { name, url };
    let keep = is_git();
    let make = to_git_violation();
    policy_is_exact(config, packages, violation);
    if made_from(packages, keep, make, violation) {
        let i = choose|i: int|
            0 <= i < packages.len() && keep(#[trigger] packages[i]) && violation == make(
                packages[i],
            );
        assert(packages[i].source == (PackageSourceView::Git { url }));
    }
    if exists|i: int|
        0 <= i < packages.len() && (#[trigger] packages[i]).name == name && packages[i].source == (
        PackageSourceView::Git { url }) {
        let i = choose|i: int|
            0 <= i < packages.len() && (#[trigger] packages[i]).name == name && packages[i].source
                == (PackageSourceView::Git { url });
        assert(keep(packages[i]));
        assert(made_from(packages, keep, make, violation));
    }
}

/// In plain terms: a path dependency is flagged exactly if path dependencies
/// are not allowed and a package of that name comes from that path.
pub proof fn which_path_dependencies_are_flagged(
    config: EscudoConfigView,
    packages: Seq<PackageInfoView>,
    name: Seq<char>,
    path: Seq<char>,
)
    ensures
        policy_violations(config, packages).contains(
            PolicyViolationView::PathDependency { name, path },
        ) <==> !config.allow_path_deps && exists|i: int|
            0 <= i < packages.len() && (#[trigger] packages[i]).name == name && packages[i].source
                == (PackageSourceView::Path { path }),
{
    let violation = PolicyViolationView::PathDependency { name, path };
    let keep = is_path();
    let make = to_path_violation();
    policy_is_exact(config, packages, violation);
    if made_from(packages, keep, make, violation) {
        let i = choose|i: int|
            0 <= i < packages.len() && keep(#[trigger] packages[i]) && violation == make(
                packages[i],
            );
        assert(packages[i].source == (PackageSourceView::Path { path }));
    }
    if exists|i: int|
        0 <= i < packages.len() && (#[trigger] packages[i]).name == name && packages[i].source == (
        PackageSourceView::Path { path }) {
        let i = choose|i: int|
            0 <= i < packages.len() && (#[trigger] packages[i]).name == name && packages[i].source
                == (PackageSourceView::Path { path });
        assert(keep(packages[i]));
        assert(made_from(packages, keep, make, violation));
    }
}

/// In plain terms: a crate is flagged as banned exactly if its name is on the
/// list, as it is written there, and it is a package's, in that version.
pub proof fn which_crates_are_banned(
    config: EscudoConfigView,
    packages: Seq<PackageInfoView>,
    name: Seq<char>,
    version: Seq<char>,
)
    ensures
        policy_violations(config, packages).contains(
            PolicyViolationView::BannedCrate { name, version },
        ) <==> config.banned_crates.contains(name) && exists|i: int|
            0 <= i < packages.len() && (#[trigger] packages[i]).name == name && packages[i].version
                == version,
{
    let violation = PolicyViolationView::BannedCrate { name, version };
    let keep = is_banned(config);
    let make = to_banned_violation();
    policy_is_exact(config, packages, violation);
    if made_from(packages, keep, make, violation) {
        let i = choose|i: int|
            0 <= i < packages.len() && keep(#[trigger] packages[i]) && violation == make(
                packages[i],
            );
        assert(packages[i].name == name);
    }
    if config.banned_crates.contains(name) && exists|i: int|
        0 <= i < packages.len() && (#[trigger] packages[i]).name == name && packages[i].version
            == version {
        let i = choose|i: int|
            0 <= i < packages.len() && (#[trigger] packages[i]).name == name && packages[i].version
                == version;
        assert(keep(packages[i]));
        assert(made_from(packages, keep, make, violation));
    }
}

/// In plain terms: a license is flagged exactly if there is a list of allowed
/// licenses, a crates.io package of that name and version has that license, and
/// it is missing or an expression that the list does not satisfy.
pub proof fn which_licenses_are_flagged(
    config: EscudoConfigView,
    packages: Seq<PackageInfoView>,
    name: Seq<char>,
    version: Seq<char>,
    license: Option<Seq<char>>,
)
    ensures
        policy_violations(config, packages).contains(
            PolicyViolationView::DisallowedLicense { name, version, license },
        ) <==> {
            &&& config.allowed_licenses.len() > 0
            &&& license matches Some(e) ==> !license_allowed(e, config.allowed_licenses)
            &&& exists|i: int|
                0 <= i < packages.len() && (#[trigger] packages[i]).source is CratesIo
                    && packages[i].name == name && packages[i].version == version
                    && packages[i].license == license
        },
{
    let violation = PolicyViolationView::DisallowedLicense { name, version, license };
    let keep = has_disallowed_license(config);
    let make = to_license_violation();
    policy_is_exact(config, packages, violation);
    if made_from(packages, keep, make, violation) {
        let i = choose|i: int|
            0 <= i < packages.len() && keep(#[trigger] packages[i]) && violation == make(
                packages[i],
            );
        assert(packages[i].license == license);
    }
    if exists|i: int|
        0 <= i < packages.len() && (#[trigger] packages[i]).source is CratesIo && packages[i].name
            == name && packages[i].version == version && packages[i].license == license {
        let i = choose|i: int|
            0 <= i < packages.len() && (#[trigger] packages[i]).source is CratesIo
                && packages[i].name == name && packages[i].version == version
                && packages[i].license == license;
        if license is None || !license_allowed(license->0, config.allowed_licenses) {
            assert(keep(packages[i]));
            assert(made_from(packages, keep, make, violation));
        }
    }
}

/// In plain terms: a crate is flagged for its versions exactly if there is that
/// limit, and the versions are those of the packages with its name, ascending,
/// more than one, and more than the limit.
pub proof fn which_duplicates_are_flagged(
    config: EscudoConfigView,
    packages: Seq<PackageInfoView>,
    name: Seq<char>,
    versions: Seq<Seq<char>>,
    max_allowed: u32,
)
    ensures
        policy_violations(config, packages).contains(
            PolicyViolationView::DuplicateVersions { name, versions, max_allowed },
        ) <==> {
            &&& config.max_duplicate_versions == Some(max_allowed)
            &&& versions.len() > 1
            &&& versions.len() > max_allowed
            &&& forall|i: int, j: int|
                0 <= i < j < versions.len() ==> before(
                    #[trigger] versions[i],
                    #[trigger] versions[j],
                )
            &&& forall|version: Seq<char>| #[trigger]
                versions.contains(version) <==> exists|i: int|
                    0 <= i < packages.len() && (#[trigger] packages[i]).name == name
                        && packages[i].version == version
        },
{
    let violation = PolicyViolationView::DuplicateVersions { name, versions, max_allowed };
    let entries = duplicate_versions(packages);
    let keep = exceeds(max_allowed);
    let make = to_duplicate_violation(max_allowed);
    policy_is_exact(config, packages, violation);
    duplicates_in_plain_terms(packages, name, versions);
    if config.max_duplicate_versions == Some(max_allowed) {
        if entries.contains((name, versions)) && versions.len() > max_allowed {
            let k = choose|k: int| 0 <= k < entries.len() && entries[k] == (name, versions);
            assert(keep(entries[k]));
            assert(made_from(entries, keep, make, violation));
        }
        if made_from(entries, keep, make, violation) {
            let k = choose|k: int|
                0 <= k < entries.len() && keep(#[trigger] entries[k]) && violation == make(
                    entries[k],
                );
            assert(entries[k] == (name, versions));
            assert(entries.contains((name, versions)));
        }
    } else if is_called_for(config, packages, violation) {
        let max = config.max_duplicate_versions->0;
        let k = choose|k: int|
            0 <= k < entries.len() && exceeds(max)(#[trigger] entries[k]) && violation
                == to_duplicate_violation(max)(entries[k]);
        assert(max == max_allowed);
    }
}

/// The place of a rule in the report.
pub open spec fn rule_of(violation: PolicyViolationView) -> int {
    match violation {
        PolicyViolationView::GitDependency { .. } => 0,
        PolicyViolationView::PathDependency { .. } => 1,
        PolicyViolationView::DuplicateVersions { .. } => 2,
        PolicyViolationView::BannedCrate { .. } => 3,
        PolicyViolationView::DisallowedLicense { .. } => 4,
    }
}

/// The violation is of the given rule.
pub open spec fn is_of_rule(rule: int) -> spec_fn(PolicyViolationView) -> bool {
    |violation: PolicyViolationView| rule_of(violation) == rule
}

/// What the rule with the given place objects to.
spec fn rule_part(
    config: EscudoConfigView,
    packages: Seq<PackageInfoView>,
    rule: int,
) -> Seq<PolicyViolationView> {
    if rule == 0 {
        git_violations(config, packages)
    } else if rule == 1 {
        path_violations(config, packages)
    } else if rule == 2 {
        duplicate_violations(config, packages)
    } else if rule == 3 {
        banned_violations(config, packages)
    } else {
        license_violations(config, packages)
    }
}

/// Each rule objects by violations of its own.
proof fn rules_keep_to_themselves(
    config: EscudoConfigView,
    packages: Seq<PackageInfoView>,
    rule: int,
    k: int,
)
    requires
        0 <= rule < 5,
        0 <= k < rule_part(config, packages, rule).len(),
    ensures
        rule_of(rule_part(config, packages, rule)[k]) == rule,
{
    if rule == 0 {
        let i = select_origin(packages, is_git(), to_git_violation(), k);
    } else if rule == 1 {
        let i = select_origin(packages, is_path(), to_path_violation(), k);
    } else if rule == 2 {
        let max = config.max_duplicate_versions->0;
        let i = select_origin(
            duplicate_versions(packages),
            exceeds(max),
            to_duplicate_violation(max),
            k,
        );
    } else if rule == 3 {
        let i = select_origin(packages, is_banned(config), to_banned_violation(), k);
    } else {
        let i = select_origin(packages, has_disallowed_license(config), to_license_violation(), k);
    }
}

/// What a rule objects to is found in the whole.
proof fn rule_part_of_the_whole(
    config: EscudoConfigView,
    packages: Seq<PackageInfoView>,
    rule: int,
)
    requires
        0 <= rule < 5,
    ensures
        policy_violations(config, packages).filter(is_of_rule(rule)) == rule_part(
            config,
            packages,
            rule,
        ),
{
    let keep = is_of_rule(rule);
    let parts = Seq::new(5, |r: int| rule_part(config, packages, r));
    assert forall|r: int| 0 <= r < 5 implies (#[trigger] parts[r]).filter(keep) == (if r == rule {
        parts[r]
    } else {
        Seq::empty()
    }) by {
        assert forall|k: int| 0 <= k < parts[r].len() implies rule_of(#[trigger] parts[r][k])
            == r by {
            rules_keep_to_themselves(config, packages, r, k);
        }
        if r == rule {
            filter_of_all(parts[r], keep);
        } else {
            filter_of_none(parts[r], keep);
        }
    }
    Seq::filter_distributes_over_add(parts[0], parts[1], keep);
    Seq::filter_distributes_over_add(parts[0] + parts[1], parts[2], keep);
    Seq::filter_distributes_over_add(parts[0] + parts[1] + parts[2], parts[3], keep);
    Seq::filter_distributes_over_add(parts[0] + parts[1] + parts[2] + parts[3], parts[4], keep);
    assert(policy_violations(config, packages) == parts[0] + parts[1] + parts[2] + parts[3]
        + parts[4]);
    assert(policy_violations(config, packages).filter(keep) =~= parts[rule]);
}

/// Rules come one after another: git and path dependencies, duplicates, banned
/// crates, licenses.
pub proof fn rules_come_in_order(
    config: EscudoConfigView,
    packages: Seq<PackageInfoView>,
    a: int,
    b: int,
)
    requires
        0 <= a < b < policy_violations(config, packages).len(),
    ensures
        rule_of(policy_violations(config, packages)[a]) <= rule_of(
            policy_violations(config, packages)[b],
        ),
{
    let git = rule_part(config, packages, 0).len() as int;
    let path = git + rule_part(config, packages, 1).len();
    let duplicate = path + rule_part(config, packages, 2).len();
    let banned = duplicate + rule_part(config, packages, 3).len();
    assert forall|k: int| 0 <= k < policy_violations(config, packages).len() implies rule_of(
        #[trigger] policy_violations(config, packages)[k],
    ) == (if k < git {
        0int
    } else if k < path {
        1
    } else if k < duplicate {
        2
    } else if k < banned {
        3
    } else {
        4
    }) by {
        if k < git {
            rules_keep_to_themselves(config, packages, 0, k);
        } else if k < path {
            rules_keep_to_themselves(config, packages, 1, k - git);
        } else if k < duplicate {
            rules_keep_to_themselves(config, packages, 2, k - path);
        } else if k < banned {
            rules_keep_to_themselves(config, packages, 3, k - duplicate);
        } else {
            rules_keep_to_themselves(config, packages, 4, k - banned);
        }
    }
}

/// Every rule but that on duplicates goes package by package: what it finds
/// among two lists is what it finds among the one, then among the other.
pub proof fn policy_goes_package_by_package(
    config: EscudoConfigView,
    a: Seq<PackageInfoView>,
    b: Seq<PackageInfoView>,
    rule: int,
)
    requires
        0 <= rule < 5,
        rule != 2,
    ensures
        policy_violations(config, a + b).filter(is_of_rule(rule)) == policy_violations(
            config,
            a,
        ).filter(is_of_rule(rule)) + policy_violations(config, b).filter(is_of_rule(rule)),
{
    rule_part_of_the_whole(config, a, rule);
    rule_part_of_the_whole(config, b, rule);
    rule_part_of_the_whole(config, a + b, rule);
    select_goes_part_by_part(a, b, is_git(), to_git_violation());
    select_goes_part_by_part(a, b, is_path(), to_path_violation());
    select_goes_part_by_part(a, b, is_banned(config), to_banned_violation());
    select_goes_part_by_part(a, b, has_disallowed_license(config), to_license_violation());
    assert(rule_part(config, a + b, rule) =~= rule_part(config, a, rule) + rule_part(
        config,
        b,
        rule,
    ));
}

/// A rule objects to one package at most once.
pub proof fn one_objection_to_one_package(
    config: EscudoConfigView,
    package: PackageInfoView,
    rule: int,
)
    requires
        0 <= rule < 5,
        rule != 2,
    ensures
        policy_violations(config, seq![package]).filter(is_of_rule(rule)).len() <= 1,
{
    rule_part_of_the_whole(config, seq![package], rule);
    select_of_one(package, is_git(), to_git_violation());
    select_of_one(package, is_path(), to_path_violation());
    select_of_one(package, is_banned(config), to_banned_violation());
    select_of_one(package, has_disallowed_license(config), to_license_violation());
}

/// Crates with too many versions come by strictly ascending name, so none of
/// them comes twice.
pub proof fn flagged_duplicates_are_ascending(
    config: EscudoConfigView,
    packages: Seq<PackageInfoView>,
    a: int,
    b: int,
)
    requires
        0 <= a < b < policy_violations(config, packages).filter(is_of_rule(2)).len(),
    ensures
        before(
            policy_violations(config, packages).filter(is_of_rule(2))[a]->DuplicateVersions_name,
            policy_violations(config, packages).filter(is_of_rule(2))[b]->DuplicateVersions_name,
        ),
{
    rule_part_of_the_whole(config, packages, 2);
    let max = config.max_duplicate_versions->0;
    let entries = duplicate_versions(packages);
    let keep = exceeds(max);
    let make = to_duplicate_violation(max);
    let related = |x: PolicyViolationView, y: PolicyViolationView|
        before(x->DuplicateVersions_name, y->DuplicateVersions_name);
    duplicates_are_ascending(packages);
    assert forall|i: int, j: int| 0 <= i < j < entries.len() implies related(
        make(#[trigger] entries[i]),
        make(#[trigger] entries[j]),
    ) by {
        assert(before(entries[i].0, entries[j].0));
    }
    select_keeps_order(entries, keep, make, related);
    let found = duplicate_violations(config, packages);
    assert(related(found[a], found[b]));
}

/// The message of a violation tells what it is about.
pub proof fn policy_messages_tell_what_they_are_about(violation: PolicyViolationView)
    ensures
        match violation {
            PolicyViolationView::GitDependency { name, url } => contains_text(
                policy_message(violation),
                name,
            ) && contains_text(policy_message(violation), url),
            PolicyViolationView::PathDependency { name, path } => contains_text(
                policy_message(violation),
                name,
            ) && contains_text(policy_message(violation), path),
            PolicyViolationView::DuplicateVersions { name, versions, max_allowed } => {
                &&& contains_text(policy_message(violation), name)
                &&& contains_text(policy_message(violation), decimal(versions.len()))
                &&& contains_text(policy_message(violation), joined(versions, ", "@))
                &&& contains_text(policy_message(violation), decimal(max_allowed as nat))
            },
            PolicyViolationView::BannedCrate { name, version } => contains_text(
                policy_message(violation),
                name,
            ) && contains_text(policy_message(violation), version),
            PolicyViolationView::DisallowedLicense { name, version, license } => {
                &&& contains_text(policy_message(violation), name)
                &&& contains_text(policy_message(violation), version)
                &&& license matches Some(expression) ==> contains_text(
                    policy_message(violation),
                    expression,
                )
            },
        },
{
    let message = policy_message(violation);
    match violation {
        PolicyViolationView::GitDependency { name, url } => {
            let front = "git dependency not allowed: "@;
            parts_are_contained(front, name, " (from "@ + url + ")"@);
            parts_are_contained(front + name + " (from "@, url, ")"@);
            assert(message =~= front + name + (" (from "@ + url + ")"@));
        },
        PolicyViolationView::PathDependency { name, path } => {
            let front = "path dependency not allowed: "@;
            parts_are_contained(front, name, " (at "@ + path + ")"@);
            parts_are_contained(front + name + " (at "@, path, ")"@);
            assert(message =~= front + name + (" (at "@ + path + ")"@));
        },
        PolicyViolationView::DuplicateVersions { name, versions, max_allowed } => {
            let count = decimal(versions.len());
            let list = joined(versions, ", "@);
            let max = decimal(max_allowed as nat);
            let a = "too many versions of "@;
            let b = ": found "@;
            let c = " ("@;
            let d = ") but at most "@;
            let e = " allowed"@;
            parts_are_contained(a, name, b + count + c + list + d + max + e);
            parts_are_contained(a + name + b, count, c + list + d + max + e);
            parts_are_contained(a + name + b + count + c, list, d + max + e);
            parts_are_contained(a + name + b + count + c + list + d, max, e);
            assert(message =~= a + name + (b + count + c + list + d + max + e));
            assert(message =~= a + name + b + count + (c + list + d + max + e));
            assert(message =~= a + name + b + count + c + list + (d + max + e));
        },
        PolicyViolationView::BannedCrate { name, version } => {
            let front = "banned crate: "@;
            parts_are_contained(front, name, " v"@ + version);
            parts_are_contained(front + name + " v"@, version, Seq::empty());
            assert(message =~= front + name + (" v"@ + version));
            assert(message =~= front + name + " v"@ + version + Seq::empty());
        },
        PolicyViolationView::DisallowedLicense { name, version, license } => {
            match license {
                Some(expression) => {
                    let front = "license not allowed for "@;
                    let tail = ": \""@ + expression + "\""@;
                    parts_are_contained(front, name, " v"@ + version + tail);
                    parts_are_contained(front + name + " v"@, version, tail);
                    parts_are_contained(
                        front + name + " v"@ + version + ": \""@,
                        expression,
                        "\""@,
                    );
                    assert(message =~= front + name + (" v"@ + version + tail));
                    assert(message =~= front + name + " v"@ + version + tail);
                },
                None => {
                    let front = "no license specified for "@;
                    parts_are_contained(front, name, " v"@ + version);
                    parts_are_contained(front + name + " v"@, version, Seq::empty());
                    assert(message =~= front + name + (" v"@ + version));
                    assert(message =~= front + name + " v"@ + version + Seq::empty());
                },
            }
        },
    }
}

/// Messages about broken rules are made by one pattern for each rule: the pieces
/// around what a violation is about are the same for all of them.
pub proof fn policy_messages_have_one_pattern() -> (p: Seq<Seq<char>>)
    ensures
        p.len() == 19,
        forall|name: Seq<char>, url: Seq<char>| #[trigger] policy_message(
            PolicyViolationView::GitDependency { name, url },
        ) == p[0] + name + p[1] + url + p[2],
        forall|name: Seq<char>, path: Seq<char>| #[trigger] policy_message(
            PolicyViolationView::PathDependency { name, path },
        ) == p[3] + name + p[4] + path + p[5],
        forall|name: Seq<char>, versions: Seq<Seq<char>>, max_allowed: u32|
            #[trigger] policy_message(
            PolicyViolationView::DuplicateVersions { name, versions, max_allowed },
        ) == p[6] + name + p[7] + decimal(versions.len()) + p[8] + joined(versions, ", "@)
            + p[9] + decimal(max_allowed as nat) + p[10],
        forall|name: Seq<char>, version: Seq<char>| #[trigger] policy_message(
            PolicyViolationView::BannedCrate { name, version },
        ) == p[11] + name + p[12] + version,
        forall|name: Seq<char>, version: Seq<char>, e: Seq<char>| #[trigger] policy_message(
            PolicyViolationView::DisallowedLicense { name, version, license: Some(e) },
        ) == p[13] + name + p[14] + version + p[15] + e + p[16],
        forall|name: Seq<char>, version: Seq<char>| #[trigger] policy_message(
            PolicyViolationView::DisallowedLicense { name, version, license: None },
        ) == p[17] + name + p[18] + version,
{
    let p = seq![
        "git dependency not allowed: "@,
        " (from "@,
        ")"@,
        "path dependency not allowed: "@,
        " (at "@,
        ")"@,
        "too many versions of "@,
        ": found "@,
        " ("@,
        ") but at most "@,
        " allowed"@,
        "banned crate: "@,
        " v"@,
        "license not allowed for "@,
        " v"@,
        ": \""@,
        "\""@,
        "no license specified for "@,
        " v"@,
    ];
    assert forall|name: Seq<char>, url: Seq<char>| #[trigger] policy_message(
            PolicyViolationView::GitDependency { name, url },
        ) == p[0] + name + p[1] + url + p[2] by {
        assert(policy_message(
            PolicyViolationView::GitDependency { name, url },
        ) =~= p[0] + name + p[1] + url + p[2]);
    }
    assert forall|name: Seq<char>, path: Seq<char>| #[trigger] policy_message(
            PolicyViolationView::PathDependency { name, path },
        ) == p[3] + name + p[4] + path + p[5] by {
        assert(policy_message(
            PolicyViolationView::PathDependency { name, path },
        ) =~= p[3] + name + p[4] + path + p[5]);
    }
    assert forall|name: Seq<char>, versions: Seq<Seq<char>>, max_allowed: u32|
        #[trigger] policy_message(
            PolicyViolationView::DuplicateVersions { name, versions, max_allowed },
        ) == p[6] + name + p[7] + decimal(versions.len()) + p[8] + joined(versions, ", "@)
            + p[9] + decimal(max_allowed as nat) + p[10] by {
        assert(policy_message(
            PolicyViolationView::DuplicateVersions { name, versions, max_allowed },
        ) =~= p[6] + name + p[7] + decimal(versions.len()) + p[8] + joined(versions, ", "@)
            + p[9] + decimal(max_allowed as nat) + p[10]);
    }
    assert forall|name: Seq<char>, version: Seq<char>| #[trigger] policy_message(
            PolicyViolationView::BannedCrate { name, version },
        ) == p[11] + name + p[12] + version by {
        assert(policy_message(
            PolicyViolationView::BannedCrate { name, version },
        ) =~= p[11] + name + p[12] + version);
    }
    assert forall|name: Seq<char>, version: Seq<char>, e: Seq<char>| #[trigger] policy_message(
            PolicyViolationView::DisallowedLicense { name, version, license: Some(e) },
        ) == p[13] + name + p[14] + version + p[15] + e + p[16] by {
        assert(policy_message(
            PolicyViolationView::DisallowedLicense { name, version, license: Some(e) },
        ) =~= p[13] + name + p[14] + version + p[15] + e + p[16]);
    }
    assert forall|name: Seq<char>, version: Seq<char>| #[trigger] policy_message(
            PolicyViolationView::DisallowedLicense { name, version, license: None },
        ) == p[17] + name + p[18] + version by {
        assert(policy_message(
            PolicyViolationView::DisallowedLicense { name, version, license: None },
        ) =~= p[17] + name + p[18] + version);
    }
    p
}

} // verus!
