use escudo::metadata::{
    classify_source, contains_string, find_duplicate_versions, third_party_packages, PackageInfo,
    PackageSource, ResolvedPackage,
};

#[test]
fn classify_registry_source() {
    let src = "registry+https://github.com/rust-lang/crates.io-index";
    assert_eq!(classify_source(src), PackageSource::CratesIo);
}

#[test]
fn classify_git_source() {
    let src = "git+https://github.com/foo/bar.git#abc123";
    match classify_source(src) {
        PackageSource::Git { url } => {
            assert!(url.contains("github.com/foo/bar"));
        }
        other => panic!("expected Git, got {:?}", other),
    }
}

#[test]
fn classify_path_source() {
    let src = "path+file:///home/user/my-crate";
    match classify_source(src) {
        PackageSource::Path { path } => {
            assert!(path.contains("my-crate"));
        }
        other => panic!("expected Path, got {:?}", other),
    }
}

#[test]
fn classify_unknown_source() {
    assert_eq!(classify_source("something-else"), PackageSource::Unknown);
}

#[test]
fn find_duplicates_basic() {
    let packages = vec![
        PackageInfo {
            name: "serde".into(),
            version: "1.0.100".into(),
            source: PackageSource::CratesIo,
            license: Some("MIT OR Apache-2.0".into()),
            manifest_path: "/fake/serde-1/Cargo.toml".into(),
        },
        PackageInfo {
            name: "serde".into(),
            version: "1.0.210".into(),
            source: PackageSource::CratesIo,
            license: Some("MIT OR Apache-2.0".into()),
            manifest_path: "/fake/serde-2/Cargo.toml".into(),
        },
        PackageInfo {
            name: "tokio".into(),
            version: "1.38.0".into(),
            source: PackageSource::CratesIo,
            license: Some("MIT".into()),
            manifest_path: "/fake/tokio/Cargo.toml".into(),
        },
    ];

    let dups = find_duplicate_versions(&packages);
    assert_eq!(dups.len(), 1);
    assert_eq!(dups[0].0, "serde");
    assert_eq!(dups[0].1, vec!["1.0.100", "1.0.210"]);
}

#[test]
fn find_duplicates_empty() {
    let packages: Vec<PackageInfo> = vec![];
    assert!(find_duplicate_versions(&packages).is_empty());
}

#[test]
fn find_duplicates_no_dups() {
    let packages = vec![
        PackageInfo {
            name: "serde".into(),
            version: "1.0.210".into(),
            source: PackageSource::CratesIo,
            license: Some("MIT OR Apache-2.0".into()),
            manifest_path: "/fake/serde/Cargo.toml".into(),
        },
        PackageInfo {
            name: "tokio".into(),
            version: "1.38.0".into(),
            source: PackageSource::CratesIo,
            license: Some("MIT".into()),
            manifest_path: "/fake/tokio/Cargo.toml".into(),
        },
    ];
    assert!(find_duplicate_versions(&packages).is_empty());
}

fn package(name: &str, version: &str) -> PackageInfo {
    PackageInfo {
        name: name.to_string(),
        version: version.to_string(),
        source: PackageSource::CratesIo,
        license: None,
        manifest_path: String::new(),
    }
}

fn resolved(id: &str, source: Option<&str>) -> ResolvedPackage {
    ResolvedPackage {
        id: id.to_string(),
        name: format!("{id}-name"),
        version: "1.2.3".to_string(),
        source: source.map(str::to_string),
        license: Some("MIT".to_string()),
        manifest_path: format!("/{id}/Cargo.toml"),
    }
}

#[test]
fn duplicates_are_sorted_and_distinct() {
    let packages = vec![
        package("syn", "2.0.50"),
        package("base64", "0.22.0"),
        package("syn", "1.0.109"),
        package("base64", "0.21.0"),
        package("syn", "2.0.50"),
        package("tokio", "1.0.0"),
        package("tokio", "1.0.0"),
        package("base64", "0.13.0"),
    ];
    let expected = vec![
        (
            "base64".to_string(),
            vec!["0.13.0".to_string(), "0.21.0".to_string(), "0.22.0".to_string()],
        ),
        ("syn".to_string(), vec!["1.0.109".to_string(), "2.0.50".to_string()]),
    ];
    assert_eq!(find_duplicate_versions(&packages), expected);
    let mut reversed = packages.clone();
    reversed.reverse();
    assert_eq!(find_duplicate_versions(&reversed), expected);
}

#[test]
fn versions_are_ordered_as_text() {
    let packages = vec![package("a", "1.9.0"), package("a", "1.10.0")];
    assert_eq!(find_duplicate_versions(&packages)[0].1, vec!["1.10.0", "1.9.0"]);
}

#[test]
fn sources_keep_what_follows_the_prefix() {
    assert_eq!(
        classify_source("git+https://github.com/foo/bar.git#abc123"),
        PackageSource::Git { url: "https://github.com/foo/bar.git#abc123".to_string() },
    );
    assert_eq!(
        classify_source("path+file:///home/user/my-crate"),
        PackageSource::Path { path: "file:///home/user/my-crate".to_string() },
    );
    assert_eq!(classify_source("git+"), PackageSource::Git { url: String::new() });
    assert_eq!(classify_source(""), PackageSource::Unknown);
    assert_eq!(classify_source("sparse+https://my-registry.example"), PackageSource::CratesIo);
    assert_eq!(
        classify_source("git+https://host/registry"),
        PackageSource::Git { url: "https://host/registry".to_string() },
    );
}

#[test]
fn only_third_party_packages_are_kept() {
    let packages = vec![
        resolved("app", None),
        resolved("serde", Some("registry+https://github.com/rust-lang/crates.io-index")),
        resolved("fork", Some("git+https://example.com/fork")),
        resolved("odd", None),
        resolved("helper", None),
        resolved("other", Some("something-else")),
    ];
    let kept = third_party_packages(&packages, &["app".to_string(), "helper".to_string()]);
    let names: Vec<&str> = kept.iter().map(|p| p.name.as_str()).collect();
    assert_eq!(names, vec!["serde-name", "fork-name", "odd-name", "other-name"]);
    assert_eq!(kept[0].source, PackageSource::CratesIo);
    assert_eq!(kept[0].version, "1.2.3");
    assert_eq!(kept[0].license.as_deref(), Some("MIT"));
    assert_eq!(kept[0].manifest_path, "/serde/Cargo.toml");
    assert_eq!(
        kept[1].source,
        PackageSource::Git { url: "https://example.com/fork".to_string() },
    );
    assert_eq!(kept[2].source, PackageSource::CratesIo);
    assert_eq!(kept[3].source, PackageSource::Unknown);
    assert!(third_party_packages(&[], &[]).is_empty());
}

#[test]
fn membership_in_a_list() {
    let texts = vec!["a".to_string(), "b".to_string()];
    assert!(contains_string(&texts, "b"));
    assert!(!contains_string(&texts, "c"));
    assert!(!contains_string(&[], ""));
}

#[test]
fn words_in_an_address_do_not_matter() {
    assert_eq!(
        classify_source("git+https://github.com/foo/registry-client.git"),
        PackageSource::Git { url: "https://github.com/foo/registry-client.git".to_string() },
    );
    assert_eq!(
        classify_source("path+file:///home/user/registry/git+lib"),
        PackageSource::Path { path: "file:///home/user/registry/git+lib".to_string() },
    );
    assert_eq!(classify_source("registry+https://host/git+path+"), PackageSource::CratesIo);
}

#[test]
fn duplicates_depend_on_names_and_versions_alone() {
    let packages = vec![package("syn", "1.0.109"), package("syn", "2.0.50")];
    let mut others = vec![packages[1].clone(), packages[0].clone(), packages[1].clone()];
    others[0].source = PackageSource::Git { url: "https://example.com".to_string() };
    others[1].license = Some("MIT".to_string());
    others[2].manifest_path = "/elsewhere/Cargo.toml".to_string();
    assert_eq!(find_duplicate_versions(&packages), find_duplicate_versions(&others));
}
