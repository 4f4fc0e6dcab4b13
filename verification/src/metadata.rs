//! The packages of a dependency tree: where they come from, which of them are
//! third-party, and which occur in several versions.

use vstd::prelude::*;

use crate::order::{
    ascending, ascending_is_unique, before, before_is_asymmetric, insert_text, sorted_distinct,
    sorted_distinct_is_ascending,
};
use crate::select::{
    made_from, select, select_ends, select_goes_part_by_part, select_holds, select_keeps_order,
    select_members, select_of_one, select_origin, select_step,
};
use crate::text::{
    containing_means_standing_somewhere, contains_text, occurs_at, same_text, text_after,
    text_contains,
};

verus! {

/// Describes where a package was sourced from.
#[derive(Debug, Clone, PartialEq)]
pub enum PackageSource {
    /// Published on crates.io (or another registry).
    CratesIo,
    /// Fetched from a git repository.
    Git { url: String },
    /// A local path dependency.
    Path { path: String },
    /// Source could not be determined.
    Unknown,
}

/// Metadata about a single third-party package in the dependency tree.
#[derive(Debug, Clone)]
pub struct PackageInfo {
    /// Crate name (e.g. "serde").
    pub name: String,
    /// Semver version string (e.g. "1.0.210").
    pub version: String,
    /// Where the package was obtained from.
    pub source: PackageSource,
    /// SPDX license expression, if declared in the manifest.
    pub license: Option<String>,
    /// Absolute path to the package's `Cargo.toml`.
    pub manifest_path: String,
}

/// A package as dependency resolution reports it, workspace members among them.
#[derive(Debug, Clone)]
pub struct ResolvedPackage {
    /// Identifier of the package within the resolved graph.
    pub id: String,
    /// Crate name.
    pub name: String,
    /// Version string.
    pub version: String,
    /// Source string, e.g. `registry+https://github.com/rust-lang/crates.io-index`.
    pub source: Option<String>,
    /// SPDX license expression, if declared in the manifest.
    pub license: Option<String>,
    /// Absolute path to the package's `Cargo.toml`.
    pub manifest_path: String,
}

/// Model of a [`PackageSource`].
pub enum PackageSourceView {
    CratesIo,
    Git { url: Seq<char> },
    Path { path: Seq<char> },
    Unknown,
}

/// Model of a [`PackageInfo`].
pub struct PackageInfoView {
    pub name: Seq<char>,
    pub version: Seq<char>,
    pub source: PackageSourceView,
    pub license: Option<Seq<char>>,
    pub manifest_path: Seq<char>,
}

/// Model of a [`ResolvedPackage`].
pub struct ResolvedPackageView {
    pub id: Seq<char>,
    pub name: Seq<char>,
    pub version: Seq<char>,
    pub source: Option<Seq<char>>,
    pub license: Option<Seq<char>>,
    pub manifest_path: Seq<char>,
}

impl DeepView for PackageSource {
    type V = PackageSourceView;

    open spec fn deep_view(&self) -> PackageSourceView {
        match *self {
            PackageSource::CratesIo => PackageSourceView::CratesIo,
            PackageSource::Git { url } => PackageSourceView::Git { url: url@ },
            PackageSource::Path { path } => PackageSourceView::Path { path: path@ },
            PackageSource::Unknown => PackageSourceView::Unknown,
        }
    }
}

impl DeepView for PackageInfo {
    type V = PackageInfoView;

    open spec fn deep_view(&self) -> PackageInfoView {
        PackageInfoView {
            name: self.name@,
            version: self.version@,
            source: self.source.deep_view(),
            license: self.license.deep_view(),
            manifest_path: self.manifest_path@,
        }
    }
}

impl DeepView for ResolvedPackage {
    type V = ResolvedPackageView;

    open spec fn deep_view(&self) -> ResolvedPackageView {
        ResolvedPackageView {
            id: self.id@,
            name: self.name@,
            version: self.version@,
            source: self.source.deep_view(),
            license: self.license.deep_view(),
            manifest_path: self.manifest_path@,
        }
    }
}

/// The source that a source string stands for. What a git or path source is
/// called does not matter: only a source of neither kind is looked through for
/// the mention of a registry.
pub open spec fn source_of(repr: Seq<char>) -> PackageSourceView {
    if "git+"@.is_prefix_of(repr) {
        PackageSourceView::Git { url: repr.skip("git+"@.len() as int) }
    } else if "path+"@.is_prefix_of(repr) {
        PackageSourceView::Path { path: repr.skip("path+"@.len() as int) }
    } else if contains_text(repr, "registry"@) {
        PackageSourceView::CratesIo
    } else {
        PackageSourceView::Unknown
    }
}

/// Resolve the source kind from the raw source string that dependency
/// resolution provides.
pub fn classify_source(repr: &str) -> (source: PackageSource)
    ensures
        source.deep_view() == source_of(repr@),
{
    if let Some(url) = text_after(repr, "git+") {
        PackageSource::Git { url: url.to_string() }
    } else if let Some(path) = text_after(repr, "path+") {
        PackageSource::Path { path: path.to_string() }
    } else if text_contains(repr, "registry") {
        PackageSource::CratesIo
    } else {
        PackageSource::Unknown
    }
}

/// What the audit keeps of a resolved package. One without a source string
/// counts as published on crates.io.
pub open spec fn package_info_of(package: ResolvedPackageView) -> PackageInfoView {
    PackageInfoView {
        name: package.name,
        version: package.version,
        source: match package.source {
            Some(repr) => source_of(repr),
            None => PackageSourceView::CratesIo,
        },
        license: package.license,
        manifest_path: package.manifest_path,
    }
}

/// The package is not one of the workspace members.
pub open spec fn is_third_party(members: Seq<Seq<char>>) -> spec_fn(ResolvedPackageView) -> bool {
    |package: ResolvedPackageView| !members.contains(package.id)
}

/// `package_info_of` as a value.
pub open spec fn to_package_info() -> spec_fn(ResolvedPackageView) -> PackageInfoView {
    |package: ResolvedPackageView| package_info_of(package)
}

/// The packages that are no workspace members, in the order of resolution.
pub open spec fn third_party(
    packages: Seq<ResolvedPackageView>,
    members: Seq<Seq<char>>,
) -> Seq<PackageInfoView> {
    select(packages, is_third_party(members), to_package_info())
}

/// Whether `text` is one of `texts`.
pub fn contains_string(texts: &[String], text: &str) -> (found: bool)
    ensures
        found == texts.deep_view().contains(text@),
{
    let mut i: usize = 0;
    while i < texts.len()
        invariant
            i <= texts@.len(),
            forall|j: int| 0 <= j < i ==> texts.deep_view()[j] != text@,
        decreases texts@.len() - i,
    {
        if same_text(texts[i].as_str(), text) {
            assert(texts.deep_view()[i as int] == text@);
            return true;
        }
        i = i + 1;
    }
    false
}

/// Collect metadata for every **third-party** (non-workspace) package in the
/// resolved dependency graph.
pub fn third_party_packages(packages: &[ResolvedPackage], workspace_members: &[String]) -> (kept: Vec<
    PackageInfo,
>)
    ensures
        kept.deep_view() == third_party(packages.deep_view(), workspace_members.deep_view()),
{
    let ghost all = packages.deep_view();
    let ghost keep = is_third_party(workspace_members.deep_view());
    let ghost make = to_package_info();
    let mut kept: Vec<PackageInfo> = Vec::new();
    proof {
        select_ends(all, keep, make);
    }
    let mut i: usize = 0;
    while i < packages.len()
        invariant
            i <= packages@.len(),
            all == packages.deep_view(),
            keep == is_third_party(workspace_members.deep_view()),
            make == to_package_info(),
            kept.deep_view() == select(all.take(i as int), keep, make),
        decreases packages@.len() - i,
    {
        let package = &packages[i];
        let ghost before = kept.deep_view();
        proof {
            select_step(all, keep, make, i as int);
        }
        if !contains_string(workspace_members, package.id.as_str()) {
            let source = match &package.source {
                Some(repr) => classify_source(repr.as_str()),
                None => PackageSource::CratesIo,
            };
            let info = PackageInfo {
                name: package.name.clone(),
                version: package.version.clone(),
                source,
                license: package.license.clone(),
                manifest_path: package.manifest_path.clone(),
            };
            assert(info.deep_view() == package_info_of(package.deep_view()));
            kept.push(info);
            assert(kept.deep_view() =~= before.push(info.deep_view()));
        }
        i = i + 1;
    }
    kept
}

/// The package has the given name.
pub open spec fn is_named(name: Seq<char>) -> spec_fn(PackageInfoView) -> bool {
    |package: PackageInfoView| package.name == name
}

/// A package's name, as a value.
pub open spec fn to_name() -> spec_fn(PackageInfoView) -> Seq<char> {
    |package: PackageInfoView| package.name
}

/// A package's version, as a value.
pub open spec fn to_version() -> spec_fn(PackageInfoView) -> Seq<char> {
    |package: PackageInfoView| package.version
}

/// The distinct versions in which a crate occurs, ascending.
pub open spec fn versions_of(packages: Seq<PackageInfoView>, name: Seq<char>) -> Seq<Seq<char>> {
    sorted_distinct(select(packages, is_named(name), to_version()))
}

/// The crate occurs in more than one version.
pub open spec fn is_duplicated(packages: Seq<PackageInfoView>) -> spec_fn(Seq<char>) -> bool {
    |name: Seq<char>| versions_of(packages, name).len() > 1
}

/// A crate name with its distinct versions.
pub open spec fn with_versions(packages: Seq<PackageInfoView>) -> spec_fn(Seq<char>) -> (
    Seq<char>,
    Seq<Seq<char>>,
) {
    |name: Seq<char>| (name, versions_of(packages, name))
}

/// The distinct crate names of the packages, ascending.
pub open spec fn names_of(packages: Seq<PackageInfoView>) -> Seq<Seq<char>> {
    sorted_distinct(packages.map_values(to_name()))
}

/// The crates that occur in more than one version, by ascending name, each with
/// its distinct versions.
pub open spec fn duplicate_versions(packages: Seq<PackageInfoView>) -> Seq<
    (Seq<char>, Seq<Seq<char>>),
> {
    select(names_of(packages), is_duplicated(packages), with_versions(packages))
}

/// The distinct crate names of the packages, ascending.
fn distinct_names(packages: &[PackageInfo]) -> (names: Vec<String>)
    ensures
        names.deep_view() == names_of(packages.deep_view()),
{
    let ghost all = packages.deep_view().map_values(to_name());
    let mut names: Vec<String> = Vec::new();
    assert(names.deep_view() =~= sorted_distinct(all.take(0)));
    let mut i: usize = 0;
    while i < packages.len()
        invariant
            i <= packages@.len(),
            all == packages.deep_view().map_values(to_name()),
            names.deep_view() == sorted_distinct(all.take(i as int)),
        decreases packages@.len() - i,
    {
        proof {
            sorted_distinct_is_ascending(all.take(i as int));
            assert(all.take(i + 1).drop_last() =~= all.take(i as int));
            assert(all[i as int] == packages@[i as int].name@);
        }
        insert_text(&mut names, packages[i].name.as_str());
        i = i + 1;
    }
    assert(all.take(i as int) =~= all);
    names
}

/// The distinct versions of the crate `name`, ascending.
fn distinct_versions(packages: &[PackageInfo], name: &str) -> (versions: Vec<String>)
    ensures
        versions.deep_view() == versions_of(packages.deep_view(), name@),
{
    let ghost all = packages.deep_view();
    let ghost keep = is_named(name@);
    let ghost make = to_version();
    let mut versions: Vec<String> = Vec::new();
    proof {
        select_ends(all, keep, make);
    }
    assert(versions.deep_view() =~= sorted_distinct(select(all.take(0), keep, make)));
    let mut i: usize = 0;
    while i < packages.len()
        invariant
            i <= packages@.len(),
            all == packages.deep_view(),
            keep == is_named(name@),
            make == to_version(),
            versions.deep_view() == sorted_distinct(select(all.take(i as int), keep, make)),
        decreases packages@.len() - i,
    {
        let ghost seen = select(all.take(i as int), keep, make);
        let ghost version = packages@[i as int].version@;
        proof {
            select_step(all, keep, make, i as int);
            sorted_distinct_is_ascending(seen);
            assert(seen.push(version).drop_last() =~= seen);
            assert(all[i as int] == packages@[i as int].deep_view());
        }
        if same_text(packages[i].name.as_str(), name) {
            insert_text(&mut versions, packages[i].version.as_str());
        }
        i = i + 1;
    }
    versions
}

/// Identify crates that appear more than once (with different versions) in the
/// dependency tree.
///
/// Returns a vec of `(crate_name, versions)` sorted by crate name. Each
/// `versions` list is sorted as well.
pub fn find_duplicate_versions(packages: &[PackageInfo]) -> (duplicates: Vec<(String, Vec<String>)>)
    ensures
        duplicates.deep_view() == duplicate_versions(packages.deep_view()),
{
    let ghost all = packages.deep_view();
    let names = distinct_names(packages);
    let ghost texts = names.deep_view();
    let ghost keep = is_duplicated(all);
    let ghost make = with_versions(all);
    let mut duplicates: Vec<(String, Vec<String>)> = Vec::new();
    proof {
        select_ends(texts, keep, make);
    }
    let mut i: usize = 0;
    while i < names.len()
        invariant
            i <= names@.len(),
            all == packages.deep_view(),
            texts == names.deep_view(),
            keep == is_duplicated(all),
            make == with_versions(all),
            duplicates.deep_view() == select(texts.take(i as int), keep, make),
        decreases names@.len() - i,
    {
        let ghost earlier = duplicates.deep_view();
        proof {
            select_step(texts, keep, make, i as int);
            assert(texts[i as int] == names@[i as int]@);
        }
        let versions = distinct_versions(packages, names[i].as_str());
        assert(versions@.len() == versions.deep_view().len());
        if versions.len() > 1 {
            let entry = (names[i].clone(), versions);
            duplicates.push(entry);
            assert(duplicates.deep_view() =~= earlier.push(entry.deep_view()));
        }
        i = i + 1;
    }
    duplicates
}

/// Some package is the crate `name` in the version `version`.
pub open spec fn has_version(
    packages: Seq<PackageInfoView>,
    name: Seq<char>,
    version: Seq<char>,
) -> bool {
    exists|i: int|
        0 <= i < packages.len() && (#[trigger] packages[i]).name == name && packages[i].version
            == version
}

/// The versions of a crate are ascending, and are those of its packages.
pub proof fn versions_are_those_of_the_crate(packages: Seq<PackageInfoView>, name: Seq<char>)
    ensures
        ascending(versions_of(packages, name)),
        forall|version: Seq<char>| #[trigger]
            versions_of(packages, name).contains(version) <==> has_version(packages, name, version),
{
    let selected = select(packages, is_named(name), to_version());
    sorted_distinct_is_ascending(selected);
    select_members(packages, is_named(name), to_version());
    assert forall|version: Seq<char>| #[trigger]
        versions_of(packages, name).contains(version) <==> has_version(packages, name, version) by {
        assert(selected.contains(version) <==> made_from(
            packages,
            is_named(name),
            to_version(),
            version,
        ));
        if has_version(packages, name, version) {
            let i = choose|i: int|
                0 <= i < packages.len() && (#[trigger] packages[i]).name == name
                    && packages[i].version == version;
            assert(is_named(name)(packages[i]));
            assert(made_from(packages, is_named(name), to_version(), version));
        }
    }
}

/// A crate occurs in more than one version exactly if two of its packages have
/// different versions.
pub proof fn duplicated_means_two_versions(packages: Seq<PackageInfoView>, name: Seq<char>)
    ensures
        is_duplicated(packages)(name) <==> exists|v: Seq<char>, w: Seq<char>|
            v != w && has_version(packages, name, v) && has_version(packages, name, w),
{
    let versions = versions_of(packages, name);
    versions_are_those_of_the_crate(packages, name);
    if is_duplicated(packages)(name) {
        before_is_asymmetric(versions[0], versions[1]);
        assert(versions.contains(versions[0]));
        assert(versions.contains(versions[1]));
    }
    if exists|v: Seq<char>, w: Seq<char>|
        v != w && has_version(packages, name, v) && has_version(packages, name, w) {
        let (v, w) = choose|v: Seq<char>, w: Seq<char>|
            v != w && has_version(packages, name, v) && has_version(packages, name, w);
        assert(versions.contains(v));
        assert(versions.contains(w));
        let i = choose|i: int| 0 <= i < versions.len() && versions[i] == v;
        let j = choose|j: int| 0 <= j < versions.len() && versions[j] == w;
        assert(i != j);
    }
}

/// The crates with several versions are listed by strictly ascending name.
pub proof fn duplicates_are_ascending(packages: Seq<PackageInfoView>)
    ensures
        forall|a: int, b: int|
            0 <= a < b < duplicate_versions(packages).len() ==> before(
                (#[trigger] duplicate_versions(packages)[a]).0,
                (#[trigger] duplicate_versions(packages)[b]).0,
            ),
{
    let make = with_versions(packages);
    let related = |x: (Seq<char>, Seq<Seq<char>>), y: (Seq<char>, Seq<Seq<char>>)|
        before(x.0, y.0);
    let names = names_of(packages);
    sorted_distinct_is_ascending(packages.map_values(to_name()));
    assert forall|i: int, j: int| 0 <= i < j < names.len() implies related(
        make(#[trigger] names[i]),
        make(#[trigger] names[j]),
    ) by {
        assert(before(names[i], names[j]));
    }
    select_keeps_order(names, is_duplicated(packages), make, related);
    let list = duplicate_versions(packages);
    assert forall|a: int, b: int| 0 <= a < b < list.len() implies before(
        (#[trigger] list[a]).0,
        (#[trigger] list[b]).0,
    ) by {
        assert(related(list[a], list[b]));
    }
}

/// The list is complete and holds nothing else: a crate is on it exactly if it
/// occurs in several versions, and then with all of them.
pub proof fn duplicates_are_exact(
    packages: Seq<PackageInfoView>,
    name: Seq<char>,
    versions: Seq<Seq<char>>,
)
    ensures
        duplicate_versions(packages).contains((name, versions)) <==> is_duplicated(packages)(name)
            && versions == versions_of(packages, name),
{
    let names = names_of(packages);
    let keep = is_duplicated(packages);
    let make = with_versions(packages);
    select_members(names, keep, make);
    if keep(name) && versions == versions_of(packages, name) {
        versions_are_those_of_the_crate(packages, name);
        let version = versions[0];
        assert(versions.contains(version));
        assert(has_version(packages, name, version));
        let i = choose|i: int|
            0 <= i < packages.len() && (#[trigger] packages[i]).name == name && packages[i].version
                == version;
        let all = packages.map_values(to_name());
        assert(all[i] == name);
        assert(all.contains(name));
        sorted_distinct_is_ascending(all);
        assert(names.contains(name));
        let k = choose|k: int| 0 <= k < names.len() && names[k] == name;
        assert(keep(names[k]));
        assert(made_from(names, keep, make, (name, versions)));
    }
}

/// The list depends on nothing but which crates occur in which versions: not on
/// the order of the packages, nor on repetitions, nor on anything else that is
/// known of them.
pub proof fn duplicates_ignore_order(a: Seq<PackageInfoView>, b: Seq<PackageInfoView>)
    requires
        forall|name: Seq<char>, version: Seq<char>| #[trigger]
            has_version(a, name, version) <==> has_version(b, name, version),
    ensures
        duplicate_versions(a) == duplicate_versions(b),
{
    assert forall|name: Seq<char>| #[trigger] versions_of(a, name) == versions_of(b, name) by {
        versions_are_those_of_the_crate(a, name);
        versions_are_those_of_the_crate(b, name);
        assert forall|version: Seq<char>| versions_of(a, name).contains(version) <==> versions_of(
            b,
            name,
        ).contains(version) by {
            assert(versions_of(a, name).contains(version) <==> has_version(a, name, version));
            assert(versions_of(b, name).contains(version) <==> has_version(b, name, version));
        }
        ascending_is_unique(versions_of(a, name), versions_of(b, name));
    }
    sorted_distinct_is_ascending(a.map_values(to_name()));
    sorted_distinct_is_ascending(b.map_values(to_name()));
    assert forall|name: Seq<char>| names_of(a).contains(name) <==> names_of(b).contains(name) by {
        names_have_versions(a, name);
        names_have_versions(b, name);
        if names_of(b).contains(name) {
            let version = choose|version: Seq<char>| has_version(b, name, version);
            assert(has_version(a, name, version));
        }
    }
    ascending_is_unique(names_of(a), names_of(b));
    assert(is_duplicated(a) =~= is_duplicated(b));
    assert(with_versions(a) =~= with_versions(b));
}

/// A crate is named exactly if it occurs in some version.
proof fn names_have_versions(packages: Seq<PackageInfoView>, name: Seq<char>)
    ensures
        names_of(packages).contains(name) <==> exists|version: Seq<char>|
            has_version(packages, name, version),
{
    let names = packages.map_values(to_name());
    sorted_distinct_is_ascending(names);
    assert(names_of(packages).contains(name) <==> names.contains(name));
    if names.contains(name) {
        let i = choose|i: int| 0 <= i < names.len() && names[i] == name;
        assert(packages[i].name == name);
        assert(has_version(packages, name, packages[i].version));
    }
    if exists|version: Seq<char>| has_version(packages, name, version) {
        let version = choose|version: Seq<char>| has_version(packages, name, version);
        let i = choose|i: int|
            0 <= i < packages.len() && (#[trigger] packages[i]).name == name && packages[i].version
                == version;
        assert(names[i] == name);
    }
}

/// A source string that begins with `registry` stands for crates.io.
pub proof fn registry_sources(rest: Seq<char>)
    ensures
        source_of("registry"@ + rest) == PackageSourceView::CratesIo,
{
    reveal_strlit("registry");
    reveal_strlit("git+");
    reveal_strlit("path+");
    let repr = "registry"@ + rest;
    assert(repr[0] == 'r');
    assert("git+"@[0] == 'g');
    assert("path+"@[0] == 'p');
    assert(repr.subrange(0, "registry"@.len() as int) =~= "registry"@);
    assert(occurs_at(repr, "registry"@, 0));
}

/// A package from a git repository counts as that, whatever words its address
/// holds, and keeps the address.
pub proof fn git_sources(url: Seq<char>)
    ensures
        source_of("git+"@ + url) == (PackageSourceView::Git { url }),
{
    let repr = "git+"@ + url;
    assert(repr.skip("git+"@.len() as int) =~= url);
}

/// A package from a local path counts as that, whatever words its path holds,
/// and keeps the path.
pub proof fn path_sources(path: Seq<char>)
    ensures
        source_of("path+"@ + path) == (PackageSourceView::Path { path }),
{
    reveal_strlit("git+");
    reveal_strlit("path+");
    let repr = "path+"@ + path;
    assert(repr[0] == 'p');
    assert("git+"@[0] == 'g');
    assert(repr.skip("path+"@.len() as int) =~= path);
}

/// Workspace members are left out, and every other package is kept.
pub proof fn workspace_members_are_left_out(
    packages: Seq<ResolvedPackageView>,
    members: Seq<Seq<char>>,
)
    ensures
        forall|info: PackageInfoView| #[trigger]
            third_party(packages, members).contains(info) <==> made_from(
                packages,
                is_third_party(members),
                to_package_info(),
                info,
            ),
{
    select_members(packages, is_third_party(members), to_package_info());
}

/// A source of neither kind is crates.io exactly if the word `registry` stands
/// somewhere in it, and unknown otherwise.
pub proof fn other_sources(repr: Seq<char>)
    requires
        !"git+"@.is_prefix_of(repr),
        !"path+"@.is_prefix_of(repr),
    ensures
        (exists|at: int|
            0 <= at && at + "registry"@.len() <= repr.len() && #[trigger] repr.subrange(
                at,
                at + "registry"@.len(),
            ) == "registry"@) ==> source_of(repr) == PackageSourceView::CratesIo,
        !(exists|at: int|
            0 <= at && at + "registry"@.len() <= repr.len() && #[trigger] repr.subrange(
                at,
                at + "registry"@.len(),
            ) == "registry"@) ==> source_of(repr) == PackageSourceView::Unknown,
{
    containing_means_standing_somewhere(repr, "registry"@);
}

/// Every package that is no workspace member is kept, with its name, version,
/// license and manifest; its source is that of its source string, and crates.io
/// where it has none.
pub proof fn other_packages_are_kept(
    packages: Seq<ResolvedPackageView>,
    members: Seq<Seq<char>>,
    i: int,
)
    requires
        0 <= i < packages.len(),
        !members.contains(packages[i].id),
    ensures
        third_party(packages, members).contains(
            PackageInfoView {
                name: packages[i].name,
                version: packages[i].version,
                source: match packages[i].source {
                    Some(repr) => source_of(repr),
                    None => PackageSourceView::CratesIo,
                },
                license: packages[i].license,
                manifest_path: packages[i].manifest_path,
            },
        ),
{
    select_holds(packages, is_third_party(members), to_package_info(), i);
}

/// Whatever is kept comes from a package that is no workspace member.
pub proof fn only_other_packages_are_kept(
    packages: Seq<ResolvedPackageView>,
    members: Seq<Seq<char>>,
    info: PackageInfoView,
)
    requires
        third_party(packages, members).contains(info),
    ensures
        exists|i: int|
            0 <= i < packages.len() && !members.contains((#[trigger] packages[i]).id) && info.name
                == packages[i].name && info.version == packages[i].version && info.license
                == packages[i].license && info.manifest_path == packages[i].manifest_path
                && info.source == (match packages[i].source {
                Some(repr) => source_of(repr),
                None => PackageSourceView::CratesIo,
            }),
{
    let kept = third_party(packages, members);
    let k = choose|k: int| 0 <= k < kept.len() && kept[k] == info;
    let i = select_origin(packages, is_third_party(members), to_package_info(), k);
    assert(!members.contains(packages[i].id));
}

/// Packages are kept one by one, in their order, and each of them once.
pub proof fn packages_are_kept_one_by_one(
    a: Seq<ResolvedPackageView>,
    b: Seq<ResolvedPackageView>,
    members: Seq<Seq<char>>,
)
    ensures
        third_party(a + b, members) == third_party(a, members) + third_party(b, members),
        a.len() == 1 ==> third_party(a, members).len() == (if members.contains(a[0].id) {
            0nat
        } else {
            1nat
        }),
{
    select_goes_part_by_part(a, b, is_third_party(members), to_package_info());
    if a.len() == 1 {
        select_of_one(a[0], is_third_party(members), to_package_info());
        assert(a =~= seq![a[0]]);
    }
}

/// In plain terms: a crate is listed with certain versions exactly if they are
/// ascending, more than one, and those of the packages with its name.
pub proof fn duplicates_in_plain_terms(
    packages: Seq<PackageInfoView>,
    name: Seq<char>,
    versions: Seq<Seq<char>>,
)
    ensures
        duplicate_versions(packages).contains((name, versions)) <==> {
            &&& versions.len() > 1
            &&& forall|i: int, j: int|
                0 <= i < j < versions.len() ==> before(
                    #[trigger] versions[i],
                    #[trigger] versions[j],
                )
            &&& forall|version: Seq<char>| #[trigger]
                versions.contains(version) <==> exists|i: int|
                    0 <= i < packages.len() && (#[trigger] packages[i]).name == name
                        && packages[i].version == version
        },
{
    let all = versions_of(packages, name);
    duplicates_are_exact(packages, name, versions);
    versions_are_those_of_the_crate(packages, name);
    assert forall|version: Seq<char>| #[trigger] all.contains(version) <==> exists|i: int|
        0 <= i < packages.len() && (#[trigger] packages[i]).name == name && packages[i].version
            == version by {
        assert(all.contains(version) <==> has_version(packages, name, version));
    }
    if forall|version: Seq<char>| #[trigger]
        versions.contains(version) <==> exists|i: int|
            0 <= i < packages.len() && (#[trigger] packages[i]).name == name && packages[i].version
                == version {
        if ascending(versions) {
            assert forall|version: Seq<char>| versions.contains(version) <==> all.contains(
                version,
            ) by {
                assert(versions.contains(version) <==> exists|i: int|
                    0 <= i < packages.len() && (#[trigger] packages[i]).name == name
                        && packages[i].version == version);
            }
            ascending_is_unique(versions, all);
        }
    }
}

} // verus!
