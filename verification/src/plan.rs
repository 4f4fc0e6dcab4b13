//! Which crates have to be asked about, which of them the cache answers for,
//! and how the answers come together.

use vstd::prelude::*;

use crate::error::{FreshnessError, FreshnessErrorView};
use crate::freshness::{
    find_version, from_crates_io, is_name_char, is_valid_crate_name, known_versions,
    known_versions_is_first, published_version, published_version_is_listed, valid_crate_name,
    CrateVersions, CrateVersionsView, VersionInfo, VersionInfoView,
};
use crate::metadata::{to_name, to_version, PackageInfo, PackageInfoView};
use crate::numeral::{decimal, decimal_text};
use crate::order::{
    ascending, before, before_is_irreflexive, insert_text, sorted_distinct,
    sorted_distinct_is_ascending,
};
use crate::select::{
    select, select_counts, select_ends, select_goes_part_by_part, select_holds,
    select_keeps_order, select_origin, select_step,
};
use crate::text::{contains_text, parts_are_contained, same_text};

verus! {

/// A crate of the dependency tree and the versions that are needed of it.
#[derive(Debug, Clone)]
pub struct NeededCrate {
    pub name: String,
    pub versions: Vec<String>,
}

/// Model of a [`NeededCrate`].
pub struct NeededCrateView {
    pub name: Seq<char>,
    pub versions: Seq<Seq<char>>,
}

impl DeepView for NeededCrate {
    type V = NeededCrateView;

    open spec fn deep_view(&self) -> NeededCrateView {
        NeededCrateView { name: self.name@, versions: self.versions.deep_view() }
    }
}

/// The package is from crates.io.
pub open spec fn is_crates_io() -> spec_fn(PackageInfoView) -> bool {
    |package: PackageInfoView| package.source is CratesIo
}

/// The package is from crates.io but has no valid name.
pub open spec fn is_misnamed() -> spec_fn(PackageInfoView) -> bool {
    |package: PackageInfoView| package.source is CratesIo && !valid_crate_name(package.name)
}

/// The package is from crates.io and has the given name.
pub open spec fn is_crates_io_named(name: Seq<char>) -> spec_fn(PackageInfoView) -> bool {
    |package: PackageInfoView| package.source is CratesIo && package.name == name
}

/// The names of the crates.io packages that are not valid, in order.
pub open spec fn misnamed(packages: Seq<PackageInfoView>) -> Seq<Seq<char>> {
    select(packages, is_misnamed(), to_name())
}

/// The names of the crates.io packages, ascending, each of them once.
pub open spec fn needed_names(packages: Seq<PackageInfoView>) -> Seq<Seq<char>> {
    sorted_distinct(select(packages, is_crates_io(), to_name()))
}

/// A crates.io crate with the versions that the packages need of it.
pub open spec fn to_needed(packages: Seq<PackageInfoView>) -> spec_fn(Seq<char>) -> NeededCrateView {
    |name: Seq<char>|
        NeededCrateView {
            name,
            versions: select(packages, is_crates_io_named(name), to_version()),
        }
}

/// The crates.io crates with the versions that the packages need of them.
pub open spec fn needed_crates(packages: Seq<PackageInfoView>) -> Seq<NeededCrateView> {
    needed_names(packages).map_values(to_needed(packages))
}

/// The versions that the packages need of the crates.io crate `name`.
fn versions_needed(packages: &[PackageInfo], name: &str) -> (versions: Vec<String>)
    ensures
        versions.deep_view() == select(
            packages.deep_view(),
            is_crates_io_named(name@),
            to_version(),
        ),
{
    let ghost all = packages.deep_view();
    let ghost keep = is_crates_io_named(name@);
    let ghost make = to_version();
    let mut versions: Vec<String> = Vec::new();
    proof {
        select_ends(all, keep, make);
    }
    let mut i: usize = 0;
    while i < packages.len()
        invariant
            i <= packages@.len(),
            all == packages.deep_view(),
            keep == is_crates_io_named(name@),
            make == to_version(),
            versions.deep_view() == select(all.take(i as int), keep, make),
        decreases packages@.len() - i,
    {
        let ghost so_far = versions.deep_view();
        proof {
            select_step(all, keep, make, i as int);
            assert(all[i as int] == packages@[i as int].deep_view());
        }
        if from_crates_io(&packages[i]) && same_text(packages[i].name.as_str(), name) {
            versions.push(packages[i].version.clone());
            assert(versions.deep_view() =~= so_far.push(all[i as int].version));
        }
        i = i + 1;
    }
    versions
}

/// Collect the crates.io crates of the dependency tree, with the versions that
/// are needed of each. A package with a name that crates.io would not accept
/// makes this fail.
pub fn collect_needed(packages: &[PackageInfo]) -> (needed: Result<Vec<NeededCrate>, FreshnessError>)
    ensures
        match needed {
            Ok(crates) => {
                &&& misnamed(packages.deep_view()).len() == 0
                &&& crates.deep_view() == needed_crates(packages.deep_view())
            },
            Err(error) => {
                &&& misnamed(packages.deep_view()).len() > 0
                &&& error.deep_view() == FreshnessErrorView::InvalidCrateName(
                    misnamed(packages.deep_view())[0],
                )
            },
        },
{
    let ghost all = packages.deep_view();
    let mut names: Vec<String> = Vec::new();
    proof {
        select_ends(all, is_crates_io(), to_name());
        select_ends(all, is_misnamed(), to_name());
    }
    assert(names.deep_view() =~= sorted_distinct(select(all.take(0), is_crates_io(), to_name())));
    let mut i: usize = 0;
    while i < packages.len()
        invariant
            i <= packages@.len(),
            all == packages.deep_view(),
            names.deep_view() == sorted_distinct(
                select(all.take(i as int), is_crates_io(), to_name()),
            ),
            select(all.take(i as int), is_misnamed(), to_name()).len() == 0,
        decreases packages@.len() - i,
    {
        let ghost seen = select(all.take(i as int), is_crates_io(), to_name());
        let ghost name = packages@[i as int].name@;
        proof {
            select_step(all, is_crates_io(), to_name(), i as int);
            select_step(all, is_misnamed(), to_name(), i as int);
            sorted_distinct_is_ascending(seen);
            assert(seen.push(name).drop_last() =~= seen);
            assert(all[i as int] == packages@[i as int].deep_view());
        }
        if from_crates_io(&packages[i]) {
            if !is_valid_crate_name(packages[i].name.as_str()) {
                proof {
                    first_selected(all, is_misnamed(), to_name(), i as int);
                }
                return Err(FreshnessError::InvalidCrateName(packages[i].name.clone()));
            }
            insert_text(&mut names, packages[i].name.as_str());
        }
        i = i + 1;
    }
    let ghost texts = names.deep_view();
    let mut crates: Vec<NeededCrate> = Vec::new();
    let mut k: usize = 0;
    while k < names.len()
        invariant
            k <= names@.len(),
            texts == names.deep_view(),
            all == packages.deep_view(),
            crates.deep_view() == texts.take(k as int).map_values(to_needed(all)),
        decreases names@.len() - k,
    {
        let ghost so_far = crates.deep_view();
        let entry = NeededCrate {
            name: names[k].clone(),
            versions: versions_needed(packages, names[k].as_str()),
        };
        assert(entry.deep_view() == to_needed(all)(texts[k as int]));
        crates.push(entry);
        assert(crates.deep_view() =~= so_far.push(entry.deep_view()));
        assert(texts.take(k + 1).map_values(to_needed(all)) =~= so_far.push(entry.deep_view()));
        k = k + 1;
    }
    assert(texts.take(k as int) =~= texts);
    Ok(crates)
}

/// The first kept member is the first of the selection.
proof fn first_selected<A, B>(
    items: Seq<A>,
    keep: spec_fn(A) -> bool,
    make: spec_fn(A) -> B,
    i: int,
)
    requires
        0 <= i < items.len(),
        keep(items[i]),
        select(items.take(i), keep, make).len() == 0,
    ensures
        select(items, keep, make).len() > 0,
        select(items, keep, make)[0] == make(items[i]),
    decreases items.len() - i,
{
    select_step(items, keep, make, i);
    first_stays(items, keep, make, i + 1);
    select_ends(items, keep, make);
}

/// What begins the selection from a prefix begins the whole selection.
proof fn first_stays<A, B>(
    items: Seq<A>,
    keep: spec_fn(A) -> bool,
    make: spec_fn(A) -> B,
    i: int,
)
    requires
        0 <= i <= items.len(),
        select(items.take(i), keep, make).len() > 0,
    ensures
        select(items, keep, make).len() > 0,
        select(items, keep, make)[0] == select(items.take(i), keep, make)[0],
    decreases items.len() - i,
{
    if i < items.len() {
        select_step(items, keep, make, i);
        first_stays(items, keep, make, i + 1);
    } else {
        select_ends(items, keep, make);
    }
}

/// What became of the attempt to read the cache file of a crate.
pub enum CacheRead {
    /// There is no cache file.
    Missing,
    /// The cache file holds these versions.
    Loaded(Vec<VersionInfo>),
    /// The cache file could not be read.
    Broken(FreshnessError),
}

/// Model of a [`CacheRead`].
pub enum CacheReadView {
    Missing,
    Loaded(Seq<VersionInfoView>),
    Broken(FreshnessErrorView),
}

/// A needed crate and what the cache says of it.
pub struct CacheLookup {
    pub needed: NeededCrate,
    pub cache: CacheRead,
}

/// Model of a [`CacheLookup`].
pub struct CacheLookupView {
    pub needed: NeededCrateView,
    pub cache: CacheReadView,
}

impl DeepView for CacheRead {
    type V = CacheReadView;

    open spec fn deep_view(&self) -> CacheReadView {
        match *self {
            CacheRead::Missing => CacheReadView::Missing,
            CacheRead::Loaded(versions) => CacheReadView::Loaded(versions.deep_view()),
            CacheRead::Broken(error) => CacheReadView::Broken(error.deep_view()),
        }
    }
}

impl DeepView for CacheLookup {
    type V = CacheLookupView;

    open spec fn deep_view(&self) -> CacheLookupView {
        CacheLookupView { needed: self.needed.deep_view(), cache: self.cache.deep_view() }
    }
}

/// All the needed versions are among the given ones.
pub open spec fn all_known(versions: Seq<VersionInfoView>, needed: Seq<Seq<char>>) -> bool {
    forall|i: int|
        0 <= i < needed.len() ==> published_version(versions, #[trigger] needed[i]) is Some
}

/// The cache answers for every needed version of the crate.
pub open spec fn is_cached() -> spec_fn(CacheLookupView) -> bool {
    |lookup: CacheLookupView|
        match lookup.cache {
            CacheReadView::Loaded(versions) => all_known(versions, lookup.needed.versions),
            _ => false,
        }
}

/// The cache does not answer for every needed version of the crate.
pub open spec fn is_uncached() -> spec_fn(CacheLookupView) -> bool {
    |lookup: CacheLookupView| !is_cached()(lookup)
}

/// The cache file of the crate could not be read.
pub open spec fn is_broken() -> spec_fn(CacheLookupView) -> bool {
    |lookup: CacheLookupView| lookup.cache is Broken
}

/// The name of the crate.
pub open spec fn to_needed_name() -> spec_fn(CacheLookupView) -> Seq<char> {
    |lookup: CacheLookupView| lookup.needed.name
}

/// The crate with the versions that the cache holds.
pub open spec fn to_cached_crate() -> spec_fn(CacheLookupView) -> CrateVersionsView {
    |lookup: CacheLookupView|
        CrateVersionsView { name: lookup.needed.name, versions: lookup.cache->Loaded_0 }
}

/// Why the cache file could not be read.
pub open spec fn to_cache_error() -> spec_fn(CacheLookupView) -> FreshnessErrorView {
    |lookup: CacheLookupView| lookup.cache->Broken_0
}

/// Why cache files could not be read, in order.
pub open spec fn cache_errors(lookups: Seq<CacheLookupView>) -> Seq<FreshnessErrorView> {
    select(lookups, is_broken(), to_cache_error())
}

/// The crates that have to be asked about.
pub open spec fn names_to_fetch(lookups: Seq<CacheLookupView>) -> Seq<Seq<char>> {
    select(lookups, is_uncached(), to_needed_name())
}

/// The crates that the cache answers for.
pub open spec fn cached_crates(lookups: Seq<CacheLookupView>) -> Seq<CrateVersionsView> {
    select(lookups, is_cached(), to_cached_crate())
}

/// What is left to ask, and what is known already.
pub struct FetchPlan {
    /// The crates that have to be asked about.
    pub to_fetch: Vec<String>,
    /// The crates that the cache answers for.
    pub cached: Vec<CrateVersions>,
}

/// Whether all the needed versions are among `versions`.
fn has_all(versions: &[VersionInfo], needed: &[String]) -> (all: bool)
    ensures
        all == all_known(versions.deep_view(), needed.deep_view()),
{
    let mut i: usize = 0;
    while i < needed.len()
        invariant
            i <= needed@.len(),
            forall|j: int|
                0 <= j < i ==> published_version(
                    versions.deep_view(),
                    #[trigger] needed.deep_view()[j],
                ) is Some,
        decreases needed@.len() - i,
    {
        assert(needed.deep_view()[i as int] == needed@[i as int]@);
        if find_version(versions, needed[i].as_str()).is_none() {
            return false;
        }
        i = i + 1;
    }
    true
}

/// Decide which crates need a fresh fetch (cache miss or needed version not in
/// cache). A cache file that cannot be read makes this fail.
pub fn plan_fetch(lookups: Vec<CacheLookup>) -> (plan: Result<FetchPlan, FreshnessError>)
    ensures
        match plan {
            Ok(plan) => {
                &&& cache_errors(lookups.deep_view()).len() == 0
                &&& plan.to_fetch.deep_view() == names_to_fetch(lookups.deep_view())
                &&& plan.cached.deep_view() == cached_crates(lookups.deep_view())
            },
            Err(error) => {
                &&& cache_errors(lookups.deep_view()).len() > 0
                &&& error.deep_view() == cache_errors(lookups.deep_view())[0]
            },
        },
{
    let ghost all = lookups.deep_view();
    let mut to_fetch: Vec<String> = Vec::new();
    let mut cached: Vec<CrateVersions> = Vec::new();
    proof {
        select_ends(all, is_broken(), to_cache_error());
        select_ends(all, is_uncached(), to_needed_name());
        select_ends(all, is_cached(), to_cached_crate());
    }
    for lookup in it: lookups
        invariant
            all == lookups.deep_view(),
            it.seq().len() == all.len(),
            forall|j: int| 0 <= j < all.len() ==> all[j] == (#[trigger] it.seq()[j]).deep_view(),
            select(all.take(it.index()), is_broken(), to_cache_error()).len() == 0,
            to_fetch.deep_view() == select(all.take(it.index()), is_uncached(), to_needed_name()),
            cached.deep_view() == select(all.take(it.index()), is_cached(), to_cached_crate()),
    {
        let ghost i = it.index();
        let ghost names_so_far = to_fetch.deep_view();
        let ghost cached_so_far = cached.deep_view();
        proof {
            select_step(all, is_broken(), to_cache_error(), i);
            select_step(all, is_uncached(), to_needed_name(), i);
            select_step(all, is_cached(), to_cached_crate(), i);
            assert(all[i] == lookup.deep_view());
        }
        let CacheLookup { needed, cache } = lookup;
        match cache {
            CacheRead::Broken(error) => {
                proof {
                    first_selected(all, is_broken(), to_cache_error(), i);
                }
                return Err(error);
            },
            CacheRead::Missing => {
                to_fetch.push(needed.name);
                assert(to_fetch.deep_view() =~= names_so_far.push(needed.name@));
            },
            CacheRead::Loaded(versions) => {
                if has_all(versions.as_slice(), needed.versions.as_slice()) {
                    let entry = CrateVersions { name: needed.name, versions };
                    cached.push(entry);
                    assert(cached.deep_view() =~= cached_so_far.push(entry.deep_view()));
                } else {
                    to_fetch.push(needed.name);
                    assert(to_fetch.deep_view() =~= names_so_far.push(needed.name@));
                }
            },
        }
    }
    Ok(FetchPlan { to_fetch, cached })
}

/// What became of the request for a crate.
pub enum FetchOutcome {
    /// The versions of the crate.
    Fetched(CrateVersions),
    /// The request failed.
    Failed(FreshnessError),
}

/// Model of a [`FetchOutcome`].
pub enum FetchOutcomeView {
    Fetched(CrateVersionsView),
    Failed(FreshnessErrorView),
}

impl DeepView for FetchOutcome {
    type V = FetchOutcomeView;

    open spec fn deep_view(&self) -> FetchOutcomeView {
        match *self {
            FetchOutcome::Fetched(versions) => FetchOutcomeView::Fetched(versions.deep_view()),
            FetchOutcome::Failed(error) => FetchOutcomeView::Failed(error.deep_view()),
        }
    }
}

/// The request failed.
pub open spec fn is_failed() -> spec_fn(FetchOutcomeView) -> bool {
    |outcome: FetchOutcomeView| outcome is Failed
}

/// Why the request failed.
pub open spec fn to_fetch_error() -> spec_fn(FetchOutcomeView) -> FreshnessErrorView {
    |outcome: FetchOutcomeView| outcome->Failed_0
}

/// The versions that were fetched.
pub open spec fn to_fetched() -> spec_fn(FetchOutcomeView) -> CrateVersionsView {
    |outcome: FetchOutcomeView| outcome->Fetched_0
}

/// Why requests failed, in order.
pub open spec fn fetch_errors(outcomes: Seq<FetchOutcomeView>) -> Seq<FreshnessErrorView> {
    select(outcomes, is_failed(), to_fetch_error())
}

/// The cached crates, then the fetched ones.
pub open spec fn merged(
    cached: Seq<CrateVersionsView>,
    outcomes: Seq<FetchOutcomeView>,
) -> Seq<CrateVersionsView> {
    cached + outcomes.map_values(to_fetched())
}

/// Put the cached and the fetched crates together. Errors are fatal — if a
/// crate cannot be verified, the audit must fail.
pub fn merge_fetched(cached: Vec<CrateVersions>, outcomes: Vec<FetchOutcome>) -> (known: Result<
    Vec<CrateVersions>,
    FreshnessError,
>)
    ensures
        match known {
            Ok(crates) => {
                &&& fetch_errors(outcomes.deep_view()).len() == 0
                &&& crates.deep_view() == cached.deep_view() + outcomes.deep_view().map_values(
                    to_fetched(),
                )
                &&& crates.deep_view() == merged(cached.deep_view(), outcomes.deep_view())
            },
            Err(error) => {
                &&& fetch_errors(outcomes.deep_view()).len() > 0
                &&& error.deep_view() == fetch_errors(outcomes.deep_view())[0]
            },
        },
{
    let ghost all = outcomes.deep_view();
    let ghost given = cached.deep_view();
    let mut known = cached;
    proof {
        select_ends(all, is_failed(), to_fetch_error());
        assert(given + all.take(0).map_values(to_fetched()) =~= given);
    }
    for outcome in it: outcomes
        invariant
            all == outcomes.deep_view(),
            it.seq().len() == all.len(),
            forall|j: int| 0 <= j < all.len() ==> all[j] == (#[trigger] it.seq()[j]).deep_view(),
            select(all.take(it.index()), is_failed(), to_fetch_error()).len() == 0,
            known.deep_view() == given + all.take(it.index()).map_values(to_fetched()),
    {
        let ghost i = it.index();
        let ghost so_far = known.deep_view();
        proof {
            select_step(all, is_failed(), to_fetch_error(), i);
            assert(all[i] == outcome.deep_view());
        }
        match outcome {
            FetchOutcome::Failed(error) => {
                proof {
                    first_selected(all, is_failed(), to_fetch_error(), i);
                }
                return Err(error);
            },
            FetchOutcome::Fetched(versions) => {
                known.push(versions);
                assert(known.deep_view() =~= so_far.push(versions.deep_view()));
                assert(all.take(i + 1).map_values(to_fetched()) =~= all.take(i).map_values(
                    to_fetched(),
                ).push(versions.deep_view()));
                assert(known.deep_view() =~= given + all.take(i + 1).map_values(to_fetched()));
            },
        }
    }
    assert(all.take(all.len() as int) =~= all);
    Ok(known)
}

/// What is told before the requests are sent.
pub open spec fn progress(total: nat, to_fetch: nat) -> Seq<char> {
    if to_fetch > 0 {
        "checking "@ + decimal(total) + " crates against crates.io ("@ + decimal(
            (total - to_fetch) as nat,
        ) + " cached, "@ + decimal(to_fetch) + " to fetch)..."@
    } else {
        "checking "@ + decimal(total) + " crates (all cached)"@
    }
}

/// What is told before the requests are sent. A crate whose cache file cannot
/// be read counts as one to fetch.
pub fn progress_message(lookups: &[CacheLookup]) -> (message: String)
    ensures
        message@ == progress(
            lookups@.len(),
            names_to_fetch(lookups.deep_view()).len(),
        ),
{
    let ghost all = lookups.deep_view();
    let total: usize = lookups.len();
    let mut to_fetch: usize = 0;
    proof {
        select_ends(all, is_uncached(), to_needed_name());
    }
    let mut i: usize = 0;
    while i < lookups.len()
        invariant
            i <= lookups@.len(),
            all == lookups.deep_view(),
            to_fetch <= i,
            to_fetch == select(all.take(i as int), is_uncached(), to_needed_name()).len(),
        decreases lookups@.len() - i,
    {
        proof {
            select_step(all, is_uncached(), to_needed_name(), i as int);
            assert(all[i as int] == lookups@[i as int].deep_view());
        }
        let cached = match &lookups[i].cache {
            CacheRead::Loaded(versions) => has_all(
                versions.as_slice(),
                lookups[i].needed.versions.as_slice(),
            ),
            _ => false,
        };
        if !cached {
            to_fetch = to_fetch + 1;
        }
        i = i + 1;
    }
    let mut m = "checking ".to_owned();
    m.append(decimal_text(total as u128).as_str());
    if to_fetch > 0 {
        m.append(" crates against crates.io (");
        m.append(decimal_text((total - to_fetch) as u128).as_str());
        m.append(" cached, ");
        m.append(decimal_text(to_fetch as u128).as_str());
        m.append(" to fetch)...");
    } else {
        m.append(" crates (all cached)");
    }
    m
}

/// A response is worth caching.
pub open spec fn is_worth_caching(versions: Seq<VersionInfoView>) -> bool {
    versions.len() > 0
}

/// Whether a response is worth caching. An empty one could be an API anomaly.
pub fn worth_caching(versions: &[VersionInfo]) -> (worth: bool)
    ensures
        worth == is_worth_caching(versions.deep_view()),
        worth == (versions@.len() > 0),
{
    versions.len() > 0
}

/// The name of the cache file of a crate.
pub open spec fn cache_file(crate_name: Seq<char>) -> Seq<char> {
    crate_name + ".json"@
}

/// The name of the cache file of a crate.
pub fn cache_file_name(crate_name: &str) -> (file: String)
    ensures
        file@ == cache_file(crate_name@),
{
    let mut file = crate_name.to_owned();
    file.append(".json");
    file
}

/// Where the cache is kept.
#[derive(Debug, Clone, PartialEq)]
pub enum CacheLocation {
    /// The directory that the environment names.
    Named(String),
    /// The directory of the given name in the platform's cache directory.
    WithinPlatformCache(&'static str),
}

/// Model of a [`CacheLocation`].
pub enum CacheLocationView {
    Named(Seq<char>),
    WithinPlatformCache(Seq<char>),
}

impl DeepView for CacheLocation {
    type V = CacheLocationView;

    open spec fn deep_view(&self) -> CacheLocationView {
        match *self {
            CacheLocation::Named(dir) => CacheLocationView::Named(dir@),
            CacheLocation::WithinPlatformCache(dir) => CacheLocationView::WithinPlatformCache(dir@),
        }
    }
}

/// Where the cache is kept, if there is a place for it.
pub open spec fn cache_location(
    named: Option<Seq<char>>,
    platform_has_cache: bool,
) -> Option<CacheLocationView> {
    match named {
        Some(dir) => Some(CacheLocationView::Named(dir)),
        None => if platform_has_cache {
            Some(CacheLocationView::WithinPlatformCache("escudo"@))
        } else {
            None
        },
    }
}

/// Decide where the cache is kept.
///
/// Precedence:
/// 1. the directory that the environment names (for CI persistence)
/// 2. `escudo` in the platform's cache directory, if it has one
pub fn locate_cache(named: Option<String>, platform_has_cache: bool) -> (location: Result<
    CacheLocation,
    FreshnessError,
>)
    ensures
        match location {
            Ok(CacheLocation::Named(dir)) => named.deep_view() == Some(dir@),
            Ok(CacheLocation::WithinPlatformCache(dir)) => named is None && platform_has_cache
                && dir@ == "escudo"@,
            Err(error) => named is None && !platform_has_cache && error.deep_view()
                == FreshnessErrorView::NoCacheDir,
        },
        match location {
            Ok(place) => cache_location(named.deep_view(), platform_has_cache) == Some(
                place.deep_view(),
            ),
            Err(_) => cache_location(named.deep_view(), platform_has_cache) is None,
        },
{
    match named {
        Some(dir) => Ok(CacheLocation::Named(dir)),
        None => if platform_has_cache {
            Ok(CacheLocation::WithinPlatformCache("escudo"))
        } else {
            Err(FreshnessError::NoCacheDir)
        },
    }
}

/// Every crates.io package is accounted for: its crate is needed, and its
/// version is among those that are needed of the crate.
pub proof fn needed_is_complete(packages: Seq<PackageInfoView>, i: int) -> (k: int)
    requires
        0 <= i < packages.len(),
        packages[i].source is CratesIo,
    ensures
        0 <= k < needed_crates(packages).len(),
        needed_crates(packages)[k].name == packages[i].name,
        needed_crates(packages)[k].versions.contains(packages[i].version),
{
    let name = packages[i].name;
    let names = select(packages, is_crates_io(), to_name());
    select_holds(packages, is_crates_io(), to_name(), i);
    sorted_distinct_is_ascending(names);
    assert(needed_names(packages).contains(name));
    let k = choose|k: int| 0 <= k < needed_names(packages).len() && needed_names(packages)[k]
        == name;
    select_holds(packages, is_crates_io_named(name), to_version(), i);
    k
}

/// No crate is needed twice: the names are ascending.
pub proof fn needed_is_ascending(packages: Seq<PackageInfoView>)
    ensures
        ascending(needed_names(packages)),
        needed_crates(packages).len() == needed_names(packages).len(),
        forall|k: int|
            0 <= k < needed_crates(packages).len() ==> (#[trigger] needed_crates(packages)[k]).name
                == needed_names(packages)[k],
{
    sorted_distinct_is_ascending(select(packages, is_crates_io(), to_name()));
}

/// Where every crates.io package has a valid name, every needed crate has one.
pub proof fn needed_names_are_valid(packages: Seq<PackageInfoView>, k: int)
    requires
        misnamed(packages).len() == 0,
        0 <= k < needed_crates(packages).len(),
    ensures
        valid_crate_name(needed_crates(packages)[k].name),
{
    let names = select(packages, is_crates_io(), to_name());
    sorted_distinct_is_ascending(names);
    let name = needed_names(packages)[k];
    assert(needed_names(packages).contains(name));
    let m = choose|m: int| 0 <= m < names.len() && names[m] == name;
    let i = select_origin(packages, is_crates_io(), to_name(), m);
    if !valid_crate_name(name) {
        select_holds(packages, is_misnamed(), to_name(), i);
    }
}

/// One package with a name that crates.io would not accept is enough to make
/// the collection fail.
pub proof fn bad_names_are_fatal(packages: Seq<PackageInfoView>, i: int)
    requires
        0 <= i < packages.len(),
        packages[i].source is CratesIo,
        !valid_crate_name(packages[i].name),
    ensures
        misnamed(packages).len() > 0,
{
    select_holds(packages, is_misnamed(), to_name(), i);
}

/// One failed request is enough to make the merge fail.
pub proof fn failures_are_fatal(outcomes: Seq<FetchOutcomeView>, i: int)
    requires
        0 <= i < outcomes.len(),
        outcomes[i] is Failed,
    ensures
        fetch_errors(outcomes).len() > 0,
{
    select_holds(outcomes, is_failed(), to_fetch_error(), i);
}

/// Every needed crate is either cached or fetched.
pub proof fn cached_and_fetched_add_up(lookups: Seq<CacheLookupView>)
    ensures
        cached_crates(lookups).len() + names_to_fetch(lookups).len() == lookups.len(),
{
    select_counts(lookups, is_cached(), to_cached_crate(), is_uncached(), to_needed_name());
}

/// A crate is asked about only when a required version is missing from the
/// cache.
pub proof fn refetched_only_when_missing(lookups: Seq<CacheLookupView>, k: int) -> (i: int)
    requires
        0 <= k < names_to_fetch(lookups).len(),
    ensures
        0 <= i < lookups.len(),
        lookups[i].needed.name == names_to_fetch(lookups)[k],
        match lookups[i].cache {
            CacheReadView::Loaded(versions) => exists|j: int|
                0 <= j < lookups[i].needed.versions.len() && published_version(
                    versions,
                    #[trigger] lookups[i].needed.versions[j],
                ) is None,
            _ => true,
        },
{
    select_origin(lookups, is_uncached(), to_needed_name(), k)
}

/// The lookups are those of the needed crates, one by one.
pub open spec fn looked_up(packages: Seq<PackageInfoView>, lookups: Seq<CacheLookupView>) -> bool {
    &&& lookups.len() == needed_crates(packages).len()
    &&& forall|k: int|
        0 <= k < lookups.len() ==> (#[trigger] lookups[k]).needed == needed_crates(packages)[k]
}

/// The outcomes are those of the crates to fetch, one by one, and all good.
pub open spec fn all_fetched(
    lookups: Seq<CacheLookupView>,
    outcomes: Seq<FetchOutcomeView>,
) -> bool {
    &&& outcomes.len() == names_to_fetch(lookups).len()
    &&& forall|k: int|
        0 <= k < outcomes.len() ==> (#[trigger] outcomes[k]) is Fetched
            && outcomes[k]->Fetched_0.name == names_to_fetch(lookups)[k]
}

/// The crates that are known at the end: the cached ones and the fetched ones.
pub open spec fn all_crates(
    lookups: Seq<CacheLookupView>,
    outcomes: Seq<FetchOutcomeView>,
) -> Seq<CrateVersionsView> {
    merged(cached_crates(lookups), outcomes)
}

/// No crate is skipped silently: once every needed crate was looked up and
/// every missing one fetched, the versions of every crates.io package's crate
/// are known.
pub proof fn every_crate_is_known(
    packages: Seq<PackageInfoView>,
    lookups: Seq<CacheLookupView>,
    outcomes: Seq<FetchOutcomeView>,
    i: int,
)
    requires
        looked_up(packages, lookups),
        all_fetched(lookups, outcomes),
        0 <= i < packages.len(),
        packages[i].source is CratesIo,
    ensures
        known_versions(all_crates(lookups, outcomes), packages[i].name) is Some,
{
    let name = packages[i].name;
    let known = all_crates(lookups, outcomes);
    let cached = cached_crates(lookups);
    let k = needed_is_complete(packages, i);
    assert(lookups[k].needed == needed_crates(packages)[k]);
    known_versions_is_first(known, name);
    if is_cached()(lookups[k]) {
        select_holds(lookups, is_cached(), to_cached_crate(), k);
        let entry = to_cached_crate()(lookups[k]);
        let m = choose|m: int| 0 <= m < cached.len() && cached[m] == entry;
        assert(known[m].name == name);
    } else {
        assert(is_uncached()(lookups[k]));
        select_holds(lookups, is_uncached(), to_needed_name(), k);
        let m = choose|m: int|
            0 <= m < names_to_fetch(lookups).len() && names_to_fetch(lookups)[m] == name;
        assert(outcomes[m] is Fetched);
        assert(known[cached.len() + m].name == name);
    }
}

/// The cache is used: a package whose crate the cache answers for is judged by
/// the cached versions, and its version is among them.
pub proof fn cached_versions_are_used(
    packages: Seq<PackageInfoView>,
    lookups: Seq<CacheLookupView>,
    outcomes: Seq<FetchOutcomeView>,
    i: int,
    k: int,
)
    requires
        looked_up(packages, lookups),
        all_fetched(lookups, outcomes),
        0 <= i < packages.len(),
        packages[i].source is CratesIo,
        0 <= k < lookups.len(),
        lookups[k].needed.name == packages[i].name,
        is_cached()(lookups[k]),
    ensures
        known_versions(all_crates(lookups, outcomes), packages[i].name) == Some(
            lookups[k].cache->Loaded_0,
        ),
        published_version(lookups[k].cache->Loaded_0, packages[i].version) is Some,
{
    let name = packages[i].name;
    let known = all_crates(lookups, outcomes);
    let cached = cached_crates(lookups);
    needed_is_ascending(packages);
    let n = needed_is_complete(packages, i);
    assert(lookups[k].needed == needed_crates(packages)[k]);
    assert(lookups[n].needed == needed_crates(packages)[n]);
    same_name_same_place(packages, n, k);
    let versions = lookups[k].needed.versions;
    let v = choose|v: int| 0 <= v < versions.len() && versions[v] == packages[i].version;
    assert(published_version(lookups[k].cache->Loaded_0, versions[v]) is Some);
    select_holds(lookups, is_cached(), to_cached_crate(), k);
    let entry = to_cached_crate()(lookups[k]);
    let m = choose|m: int| 0 <= m < cached.len() && cached[m] == entry;
    assert(known[m].name == name);
    known_versions_is_first(known, name);
    let found = known_versions(known, name)->0;
    let first = choose|first: int|
        0 <= first < known.len() && (#[trigger] known[first]).name == name && known[first].versions
            == found && forall|j: int| 0 <= j < first ==> (#[trigger] known[j]).name != name;
    assert(first <= m);
    assert(known[first] == cached[first]);
    let origin = select_origin(lookups, is_cached(), to_cached_crate(), first);
    assert(lookups[origin].needed == needed_crates(packages)[origin]);
    same_name_same_place(packages, origin, k);
}

/// What was fetched is used: a package whose crate had to be asked about is
/// judged by the versions that were fetched for that crate.
pub proof fn fetched_versions_are_used(
    packages: Seq<PackageInfoView>,
    lookups: Seq<CacheLookupView>,
    outcomes: Seq<FetchOutcomeView>,
    i: int,
    m: int,
)
    requires
        looked_up(packages, lookups),
        all_fetched(lookups, outcomes),
        0 <= i < packages.len(),
        0 <= m < names_to_fetch(lookups).len(),
        names_to_fetch(lookups)[m] == packages[i].name,
    ensures
        known_versions(all_crates(lookups, outcomes), packages[i].name) == Some(
            outcomes[m]->Fetched_0.versions,
        ),
{
    let name = packages[i].name;
    let known = all_crates(lookups, outcomes);
    let cached = cached_crates(lookups);
    let k = select_origin(lookups, is_uncached(), to_needed_name(), m);
    assert(lookups[k].needed == needed_crates(packages)[k]);
    assert(outcomes[m] is Fetched);
    assert(known[cached.len() + m].name == name);
    known_versions_is_first(known, name);
    let found = known_versions(known, name)->0;
    let first = choose|first: int|
        0 <= first < known.len() && (#[trigger] known[first]).name == name && known[first].versions
            == found && forall|j: int| 0 <= j < first ==> (#[trigger] known[j]).name != name;
    assert(first <= cached.len() + m);
    if first < cached.len() {
        assert(known[first] == cached[first]);
        let origin = select_origin(lookups, is_cached(), to_cached_crate(), first);
        assert(lookups[origin].needed == needed_crates(packages)[origin]);
        same_name_same_place(packages, origin, k);
    } else {
        let f = first - cached.len();
        assert(outcomes[f] is Fetched);
        assert(names_to_fetch(lookups)[f] == name);
        no_name_is_fetched_twice(packages, lookups, f, m);
    }
}

/// No crate is asked about twice.
pub proof fn no_name_is_fetched_twice(
    packages: Seq<PackageInfoView>,
    lookups: Seq<CacheLookupView>,
    a: int,
    b: int,
)
    requires
        looked_up(packages, lookups),
        0 <= a < names_to_fetch(lookups).len(),
        0 <= b < names_to_fetch(lookups).len(),
        names_to_fetch(lookups)[a] == names_to_fetch(lookups)[b],
    ensures
        a == b,
{
    let make = to_needed_name();
    let different = |x: Seq<char>, y: Seq<char>| x != y;
    assert forall|i: int, j: int| 0 <= i < j < lookups.len() implies different(
        make(#[trigger] lookups[i]),
        make(#[trigger] lookups[j]),
    ) by {
        assert(lookups[i].needed == needed_crates(packages)[i]);
        assert(lookups[j].needed == needed_crates(packages)[j]);
        if lookups[i].needed.name == lookups[j].needed.name {
            same_name_same_place(packages, i, j);
        }
    }
    select_keeps_order(lookups, is_uncached(), make, different);
    let names = names_to_fetch(lookups);
    if a < b {
        assert(different(names[a], names[b]));
    } else if b < a {
        assert(different(names[b], names[a]));
    }
}

/// A needed crate has one place only.
proof fn same_name_same_place(packages: Seq<PackageInfoView>, a: int, b: int)
    requires
        0 <= a < needed_crates(packages).len(),
        0 <= b < needed_crates(packages).len(),
        needed_crates(packages)[a].name == needed_crates(packages)[b].name,
    ensures
        a == b,
{
    needed_is_ascending(packages);
    let names = needed_names(packages);
    before_is_irreflexive(names[a]);
    if a < b {
        assert(before(names[a], names[b]));
    } else if b < a {
        assert(before(names[b], names[a]));
    }
}

/// The cache file of a crate with a valid name lies in the cache directory:
/// its name holds no separator of paths and no drive, and stands for no other
/// directory.
pub proof fn cache_files_stay_in_their_directory(name: Seq<char>)
    requires
        valid_crate_name(name),
    ensures
        !cache_file(name).contains('/'),
        !cache_file(name).contains('\\'),
        !cache_file(name).contains(':'),
        cache_file(name) != "."@,
        cache_file(name) != ".."@,
{
    reveal_strlit(".json");
    reveal_strlit(".");
    reveal_strlit("..");
    let file = cache_file(name);
    assert forall|i: int| 0 <= i < file.len() implies file[i] != '/' && file[i] != '\\' && file[i]
        != ':' by {
        if i < name.len() {
            assert(is_name_char(name[i]));
        } else {
            assert(file[i] == ".json"@[i - name.len()]);
        }
    }
    assert(file.len() == name.len() + 5);
}

/// Two crates never share a cache file.
pub proof fn cache_files_are_distinct(a: Seq<char>, b: Seq<char>)
    requires
        cache_file(a) == cache_file(b),
    ensures
        a == b,
{
    assert(cache_file(a).len() == a.len() + ".json"@.len());
    assert(a =~= cache_file(a).take(a.len() as int));
    assert(b =~= cache_file(b).take(b.len() as int));
}

/// Nothing is selected where nothing is kept.
proof fn nothing_selected<A, B>(items: Seq<A>, keep: spec_fn(A) -> bool, make: spec_fn(A) -> B)
    requires
        forall|j: int| 0 <= j < items.len() ==> !keep(#[trigger] items[j]),
    ensures
        select(items, keep, make).len() == 0,
{
    if select(items, keep, make).len() > 0 {
        let j = select_origin(items, keep, make, 0);
    }
}

/// What begins a selection comes from the first kept member.
proof fn first_kept<A, B>(
    items: Seq<A>,
    keep: spec_fn(A) -> bool,
    make: spec_fn(A) -> B,
    i: int,
)
    requires
        0 <= i < items.len(),
        keep(items[i]),
        forall|j: int| 0 <= j < i ==> !keep(#[trigger] items[j]),
    ensures
        select(items, keep, make).len() > 0,
        select(items, keep, make)[0] == make(items[i]),
{
    let prefix = items.take(i);
    assert forall|j: int| 0 <= j < prefix.len() implies !keep(#[trigger] prefix[j]) by {
        assert(prefix[j] == items[j]);
    }
    nothing_selected(prefix, keep, make);
    first_selected(items, keep, make, i);
}

/// The collection fails exactly if a crates.io package has no valid name, and
/// it is the first such name that is told; other packages do not matter.
pub proof fn the_first_bad_name_is_told(packages: Seq<PackageInfoView>, i: int)
    requires
        0 <= i <= packages.len(),
        i < packages.len() ==> packages[i].source is CratesIo && !valid_crate_name(
            packages[i].name,
        ),
        forall|j: int|
            0 <= j < i ==> (#[trigger] packages[j]).source !is CratesIo || valid_crate_name(
                packages[j].name,
            ),
    ensures
        misnamed(packages).len() > 0 <==> i < packages.len(),
        i < packages.len() ==> misnamed(packages)[0] == packages[i].name,
{
    if i < packages.len() {
        first_kept(packages, is_misnamed(), to_name(), i);
    } else {
        nothing_selected(packages, is_misnamed(), to_name());
    }
}

/// A crate is needed exactly if a crates.io package has its name, and the
/// versions that are needed of it are those of these packages.
pub proof fn which_crates_are_needed(packages: Seq<PackageInfoView>, k: int)
    requires
        0 <= k < needed_crates(packages).len(),
    ensures
        exists|i: int|
            0 <= i < packages.len() && (#[trigger] packages[i]).source is CratesIo
                && packages[i].name == needed_crates(packages)[k].name,
        forall|version: Seq<char>| #[trigger]
            needed_crates(packages)[k].versions.contains(version) <==> exists|i: int|
                0 <= i < packages.len() && (#[trigger] packages[i]).source is CratesIo
                    && packages[i].name == needed_crates(packages)[k].name && packages[i].version
                    == version,
{
    let names = select(packages, is_crates_io(), to_name());
    let name = needed_names(packages)[k];
    sorted_distinct_is_ascending(names);
    assert(needed_names(packages).contains(name));
    let m = choose|m: int| 0 <= m < names.len() && names[m] == name;
    let origin = select_origin(packages, is_crates_io(), to_name(), m);
    assert(packages[origin].source is CratesIo && packages[origin].name == name);
    let keep = is_crates_io_named(name);
    let versions = needed_crates(packages)[k].versions;
    assert forall|version: Seq<char>| #[trigger] versions.contains(version) <==> exists|i: int|
        0 <= i < packages.len() && (#[trigger] packages[i]).source is CratesIo && packages[i].name
            == name && packages[i].version == version by {
        if versions.contains(version) {
            let v = choose|v: int| 0 <= v < versions.len() && versions[v] == version;
            let i = select_origin(packages, keep, to_version(), v);
            assert(packages[i].source is CratesIo && packages[i].version == version);
        }
        if exists|i: int|
            0 <= i < packages.len() && (#[trigger] packages[i]).source is CratesIo
                && packages[i].name == name && packages[i].version == version {
            let i = choose|i: int|
                0 <= i < packages.len() && (#[trigger] packages[i]).source is CratesIo
                    && packages[i].name == name && packages[i].version == version;
            select_holds(packages, keep, to_version(), i);
        }
    }
}

/// The number of every needed version is that of a listed one.
pub open spec fn all_listed(listed: Seq<VersionInfoView>, needed: Seq<Seq<char>>) -> bool {
    forall|j: int|
        0 <= j < needed.len() ==> exists|v: int|
            0 <= v < listed.len() && (#[trigger] listed[v]).num == #[trigger] needed[j]
}

/// The cache answers for a crate exactly if its file could be read and lists
/// every version that is needed, by its number.
proof fn cached_means_all_listed(lookup: CacheLookupView)
    ensures
        is_cached()(lookup) <==> {
            &&& lookup.cache is Loaded
            &&& all_listed(lookup.cache->Loaded_0, lookup.needed.versions)
        },
{
    let needed = lookup.needed.versions;
    if lookup.cache is Loaded {
        let listed = lookup.cache->Loaded_0;
        assert forall|j: int| 0 <= j < needed.len() implies (published_version(
            listed,
            #[trigger] needed[j],
        ) is Some <==> exists|v: int|
            0 <= v < listed.len() && (#[trigger] listed[v]).num == needed[j]) by {
            published_version_is_listed(listed, needed[j]);
            if published_version(listed, needed[j]) is Some {
                let info = published_version(listed, needed[j])->0;
                let v = choose|v: int| 0 <= v < listed.len() && listed[v] == info;
                assert(listed[v].num == needed[j]);
            }
        }
        if all_known(listed, needed) {
            assert forall|j: int| 0 <= j < needed.len() implies exists|v: int|
                0 <= v < listed.len() && (#[trigger] listed[v]).num == #[trigger] needed[j] by {
                assert(published_version(listed, needed[j]) is Some);
            }
        }
        if all_listed(listed, needed) {
            assert(all_known(listed, needed));
        }
    }
}

/// In plain terms: the cache answers for a crate, with all that it lists,
/// exactly if its file could be read and lists the number of every version that
/// is needed; every other crate is asked about.
pub proof fn which_crates_are_cached(lookups: Seq<CacheLookupView>, i: int)
    requires
        0 <= i < lookups.len(),
    ensures
        if lookups[i].cache is Loaded && all_listed(
            lookups[i].cache->Loaded_0,
            lookups[i].needed.versions,
        ) {
            cached_crates(lookups).contains(
                CrateVersionsView {
                    name: lookups[i].needed.name,
                    versions: lookups[i].cache->Loaded_0,
                },
            )
        } else {
            names_to_fetch(lookups).contains(lookups[i].needed.name)
        },
{
    cached_means_all_listed(lookups[i]);
    if is_cached()(lookups[i]) {
        select_holds(lookups, is_cached(), to_cached_crate(), i);
    } else {
        select_holds(lookups, is_uncached(), to_needed_name(), i);
    }
}

/// Planning goes crate by crate: each of them is cached or fetched, once, in
/// their order.
pub proof fn planning_goes_crate_by_crate(a: Seq<CacheLookupView>, b: Seq<CacheLookupView>)
    ensures
        cached_crates(a + b) == cached_crates(a) + cached_crates(b),
        names_to_fetch(a + b) == names_to_fetch(a) + names_to_fetch(b),
        cached_crates(a).len() + names_to_fetch(a).len() == a.len(),
{
    select_goes_part_by_part(a, b, is_cached(), to_cached_crate());
    select_goes_part_by_part(a, b, is_uncached(), to_needed_name());
    cached_and_fetched_add_up(a);
}

/// Planning fails exactly if a cache file could not be read, and with the error
/// of the first such file.
pub proof fn the_first_broken_file_is_told(lookups: Seq<CacheLookupView>, i: int)
    requires
        0 <= i <= lookups.len(),
        i < lookups.len() ==> lookups[i].cache is Broken,
        forall|j: int| 0 <= j < i ==> (#[trigger] lookups[j]).cache !is Broken,
    ensures
        cache_errors(lookups).len() > 0 <==> i < lookups.len(),
        i < lookups.len() ==> cache_errors(lookups)[0] == lookups[i].cache->Broken_0,
{
    if i < lookups.len() {
        first_kept(lookups, is_broken(), to_cache_error(), i);
    } else {
        nothing_selected(lookups, is_broken(), to_cache_error());
    }
}

/// The merge fails exactly if a request failed, and with the error of the first
/// that did.
pub proof fn the_first_failure_is_told(outcomes: Seq<FetchOutcomeView>, i: int)
    requires
        0 <= i <= outcomes.len(),
        i < outcomes.len() ==> outcomes[i] is Failed,
        forall|j: int| 0 <= j < i ==> (#[trigger] outcomes[j]) !is Failed,
    ensures
        fetch_errors(outcomes).len() > 0 <==> i < outcomes.len(),
        i < outcomes.len() ==> fetch_errors(outcomes)[0] == outcomes[i]->Failed_0,
{
    if i < outcomes.len() {
        first_kept(outcomes, is_failed(), to_fetch_error(), i);
    } else {
        nothing_selected(outcomes, is_failed(), to_fetch_error());
    }
}

/// What was fetched for a crate is kept as it came.
pub proof fn fetched_crates_are_kept(lookups: Seq<CacheLookupView>, crates: Seq<CrateVersionsView>)
    ensures
        all_crates(lookups, crates.map_values(|c: CrateVersionsView| FetchOutcomeView::Fetched(c)))
            == cached_crates(lookups) + crates,
{
    let outcomes = crates.map_values(|c: CrateVersionsView| FetchOutcomeView::Fetched(c));
    assert(outcomes.map_values(to_fetched()) =~= crates);
}

/// A cache file is called by the name of its crate, and nothing is left of that
/// name or put before it.
pub proof fn cache_files_are_called_by_their_crate(name: Seq<char>)
    ensures
        cache_file(name).take(name.len() as int) == name,
        cache_file(name).skip(name.len() as int) == ".json"@,
{
    assert(cache_file(name).take(name.len() as int) =~= name);
    assert(cache_file(name).skip(name.len() as int) =~= ".json"@);
}

/// What is told before the requests are sent holds the counts: of all crates,
/// and where some are to be fetched, of these and of the rest.
pub proof fn progress_tells_the_counts(cached: nat, to_fetch: nat)
    ensures
        contains_text(progress(cached + to_fetch, to_fetch), decimal(cached + to_fetch)),
        to_fetch > 0 ==> contains_text(progress(cached + to_fetch, to_fetch), decimal(cached))
            && contains_text(progress(cached + to_fetch, to_fetch), decimal(to_fetch)),
{
    let total = decimal(cached + to_fetch);
    let message = progress(cached + to_fetch, to_fetch);
    let a = "checking "@;
    if to_fetch > 0 {
        let x = decimal(cached);
        let y = decimal(to_fetch);
        let b = " crates against crates.io ("@;
        let c = " cached, "@;
        let d = " to fetch)..."@;
        parts_are_contained(a, total, b + x + c + y + d);
        parts_are_contained(a + total + b, x, c + y + d);
        parts_are_contained(a + total + b + x + c, y, d);
        assert(message =~= a + total + (b + x + c + y + d));
        assert(message =~= a + total + b + x + (c + y + d));
    } else {
        parts_are_contained(a, total, " crates (all cached)"@);
    }
}

/// The cached crates come first, as they are cached, then the fetched ones, as
/// they were fetched.
pub proof fn merging_keeps_everything(
    cached: Seq<CrateVersionsView>,
    outcomes: Seq<FetchOutcomeView>,
)
    requires
        forall|m: int| 0 <= m < outcomes.len() ==> (#[trigger] outcomes[m]) is Fetched,
    ensures
        merged(cached, outcomes).len() == cached.len() + outcomes.len(),
        forall|k: int|
            0 <= k < cached.len() ==> #[trigger] merged(cached, outcomes)[k] == cached[k],
        forall|m: int|
            cached.len() <= m < cached.len() + outcomes.len() ==> #[trigger] merged(
                cached,
                outcomes,
            )[m] == outcomes[m - cached.len()]->Fetched_0,
{
}

/// Every answer is cached but an empty one.
pub proof fn only_empty_answers_are_not_cached(versions: Seq<VersionInfoView>)
    ensures
        !is_worth_caching(versions) <==> versions == Seq::<VersionInfoView>::empty(),
{
    if versions.len() == 0 {
        assert(versions =~= Seq::<VersionInfoView>::empty());
    }
}

/// A directory that the environment names is taken as it is named, whatever the
/// platform has; without one, a directory called `escudo` in the platform's
/// cache; and without that there is no place.
pub proof fn where_the_cache_is_kept(dir: Seq<char>, platform_has_cache: bool)
    ensures
        cache_location(Some(dir), platform_has_cache) == Some(CacheLocationView::Named(dir)),
        cache_location(None, true) == Some(CacheLocationView::WithinPlatformCache("escudo"@)),
        cache_location(None, false) is None,
{
}

/// What is told before the requests are sent is made by one pattern where some
/// crates are to be fetched, and by another where none is.
pub proof fn progress_has_one_pattern() -> (p: Seq<Seq<char>>)
    ensures
        p.len() == 6,
        forall|total: nat, n: nat| 0 < n <= total ==> #[trigger] progress(total, n) == p[0]
            + decimal(total) + p[1] + decimal((total - n) as nat) + p[2] + decimal(n) + p[3],
        forall|total: nat| #[trigger] progress(total, 0) == p[4] + decimal(total) + p[5],
{
    let p = seq![
        "checking "@,
        " crates against crates.io ("@,
        " cached, "@,
        " to fetch)..."@,
        "checking "@,
        " crates (all cached)"@,
    ];
    assert forall|total: nat, n: nat| 0 < n <= total implies #[trigger] progress(total, n)
        == p[0] + decimal(total) + p[1] + decimal((total - n) as nat) + p[2] + decimal(n)
        + p[3] by {
        assert(progress(total, n) =~= p[0] + decimal(total) + p[1]
            + decimal((total - n) as nat) + p[2] + decimal(n) + p[3]);
    }
    assert forall|total: nat| #[trigger] progress(total, 0) == p[4] + decimal(total) + p[5] by {
        assert(progress(total, 0) =~= p[4] + decimal(total) + p[5]);
    }
    p
}

} // verus!
