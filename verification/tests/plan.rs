use escudo::error::FreshnessError;
use escudo::freshness::{CrateVersions, VersionInfo};
use escudo::metadata::{PackageInfo, PackageSource};
use escudo::plan::{
    cache_file_name, collect_needed, locate_cache, merge_fetched, plan_fetch, progress_message,
    worth_caching, CacheLocation, CacheLookup, CacheRead, FetchOutcome, NeededCrate,
};
use escudo::time::Timestamp;

fn package(name: &str, version: &str) -> PackageInfo {
    PackageInfo {
        name: name.to_string(),
        version: version.to_string(),
        source: PackageSource::CratesIo,
        license: None,
        manifest_path: String::new(),
    }
}

fn infos(nums: &[&str]) -> Vec<VersionInfo> {
    nums.iter()
        .map(|num| VersionInfo {
            num: num.to_string(),
            created_at: Timestamp::new(1_700_000_000, 0).unwrap(),
        })
        .collect()
}

fn versions(name: &str, nums: &[&str]) -> CrateVersions {
    CrateVersions { name: name.to_string(), versions: infos(nums) }
}

fn needed(name: &str, nums: &[&str]) -> NeededCrate {
    NeededCrate { name: name.to_string(), versions: nums.iter().map(|n| n.to_string()).collect() }
}

fn names(crates: &[CrateVersions]) -> Vec<&str> {
    crates.iter().map(|c| c.name.as_str()).collect()
}

#[test]
fn needed_crates_are_collected() {
    let mut local = package("local", "0.1.0");
    local.source = PackageSource::Path { path: "../local".to_string() };
    let packages = vec![
        package("syn", "2.0.50"),
        package("anyhow", "1.0.0"),
        local,
        package("syn", "1.0.109"),
    ];
    let crates = collect_needed(&packages).unwrap();
    assert_eq!(crates.len(), 2);
    assert_eq!(crates[0].name, "anyhow");
    assert_eq!(crates[0].versions, vec!["1.0.0"]);
    assert_eq!(crates[1].name, "syn");
    assert_eq!(crates[1].versions, vec!["2.0.50", "1.0.109"]);
}

#[test]
fn bad_names_stop_the_collection() {
    let packages = vec![package("serde", "1.0.0"), package("../evil", "1.0.0"), package("", "1.0.0")];
    match collect_needed(&packages) {
        Err(FreshnessError::InvalidCrateName(name)) => assert_eq!(name, "../evil"),
        _ => panic!("expected an invalid name"),
    }
}

#[test]
fn bad_names_of_other_sources_do_not_matter() {
    let mut odd = package("a/b", "1.0.0");
    odd.source = PackageSource::Unknown;
    assert!(collect_needed(&[odd]).unwrap().is_empty());
}

#[test]
fn crates_are_fetched_when_the_cache_lacks_a_version() {
    let lookups = vec![
        CacheLookup { needed: needed("a", &["1.0.0"]), cache: CacheRead::Missing },
        CacheLookup {
            needed: needed("b", &["1.0.0", "2.0.0"]),
            cache: CacheRead::Loaded(infos(&["2.0.0", "1.0.0", "3.0.0"])),
        },
        CacheLookup {
            needed: needed("c", &["1.0.0", "2.0.0"]),
            cache: CacheRead::Loaded(infos(&["1.0.0"])),
        },
    ];
    assert_eq!(
        progress_message(&lookups),
        "checking 3 crates against crates.io (1 cached, 2 to fetch)..."
    );
    let plan = plan_fetch(lookups).unwrap();
    assert_eq!(plan.to_fetch, vec!["a", "c"]);
    assert_eq!(names(&plan.cached), vec!["b"]);
    assert_eq!(plan.cached[0].versions.len(), 3);
}

#[test]
fn a_broken_cache_file_is_fatal() {
    let lookups = vec![
        CacheLookup { needed: needed("a", &["1.0.0"]), cache: CacheRead::Missing },
        CacheLookup {
            needed: needed("b", &["1.0.0"]),
            cache: CacheRead::Broken(FreshnessError::CacheIo("denied".to_string())),
        },
    ];
    assert_eq!(
        progress_message(&lookups),
        "checking 2 crates against crates.io (0 cached, 2 to fetch)..."
    );
    match plan_fetch(lookups) {
        Err(FreshnessError::CacheIo(source)) => assert_eq!(source, "denied"),
        _ => panic!("expected a cache error"),
    }
}

#[test]
fn nothing_to_fetch() {
    let lookups = vec![CacheLookup {
        needed: needed("a", &["1.0.0"]),
        cache: CacheRead::Loaded(infos(&["1.0.0"])),
    }];
    assert_eq!(progress_message(&lookups), "checking 1 crates (all cached)");
    assert!(plan_fetch(lookups).unwrap().to_fetch.is_empty());
    assert_eq!(progress_message(&[]), "checking 0 crates (all cached)");
}

#[test]
fn cached_and_fetched_crates_come_together() {
    let known = merge_fetched(
        vec![versions("b", &["1.0.0"])],
        vec![
            FetchOutcome::Fetched(versions("a", &["1.0.0"])),
            FetchOutcome::Fetched(versions("c", &[])),
        ],
    )
    .unwrap();
    assert_eq!(names(&known), vec!["b", "a", "c"]);
}

#[test]
fn one_failure_fails_the_merge() {
    let outcomes = vec![
        FetchOutcome::Fetched(versions("a", &["1.0.0"])),
        FetchOutcome::Failed(FreshnessError::TaskPanicked),
        FetchOutcome::Failed(FreshnessError::NoCacheDir),
    ];
    assert!(matches!(merge_fetched(vec![], outcomes), Err(FreshnessError::TaskPanicked)));
}

#[test]
fn empty_responses_are_not_cached() {
    assert!(!worth_caching(&[]));
    assert!(worth_caching(&infos(&["1.0.0"])));
}

#[test]
fn cache_files() {
    assert_eq!(cache_file_name("serde"), "serde.json");
    assert_ne!(cache_file_name("serde"), cache_file_name("serde_json"));
    for name in ["a", "A-b_0"] {
        assert!(!cache_file_name(name).contains(['/', '\\', ':']));
    }
}

#[test]
fn cache_locations() {
    assert_eq!(
        locate_cache(Some("/tmp/cache".to_string()), true).unwrap(),
        CacheLocation::Named("/tmp/cache".to_string()),
    );
    assert_eq!(
        locate_cache(None, true).unwrap(),
        CacheLocation::WithinPlatformCache("escudo"),
    );
    assert!(matches!(locate_cache(None, false), Err(FreshnessError::NoCacheDir)));
}

#[test]
fn each_crate_is_judged_by_its_own_answer() {
    let packages = vec![package("b", "1.0.0"), package("a", "2.0.0"), package("c", "3.0.0")];
    let lookups: Vec<CacheLookup> = collect_needed(&packages)
        .unwrap()
        .into_iter()
        .map(|needed| {
            let cache = match needed.name.as_str() {
                "a" => CacheRead::Loaded(infos(&["2.0.0"])),
                "b" => CacheRead::Loaded(infos(&["0.9.0"])),
                _ => CacheRead::Missing,
            };
            CacheLookup { needed, cache }
        })
        .collect();
    let plan = plan_fetch(lookups).unwrap();
    assert_eq!(plan.to_fetch, vec!["b", "c"]);
    let outcomes = plan
        .to_fetch
        .iter()
        .map(|name| FetchOutcome::Fetched(versions(name, &["1.0.0", "3.0.0"])))
        .collect();
    let known = merge_fetched(plan.cached, outcomes).unwrap();
    let counts: Vec<(&str, usize)> =
        known.iter().map(|c| (c.name.as_str(), c.versions.len())).collect();
    assert_eq!(counts, vec![("a", 1), ("b", 2), ("c", 2)]);
}
