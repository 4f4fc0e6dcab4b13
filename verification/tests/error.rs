use escudo::error::{
    describe_status, ConfigError, EscudoError, FreshnessError, MetadataError, ReportError,
    Violation,
};
use escudo::freshness::FreshnessViolation;
use escudo::http::StatusCode;
use escudo::policy::PolicyViolation;
use escudo::time::Timestamp;

fn text(t: &str) -> String {
    t.to_string()
}

#[test]
fn config_errors() {
    assert_eq!(
        ConfigError::NotFound { path: text("x.toml") }.to_string(),
        "config file not found: x.toml"
    );
    assert_eq!(ConfigError::Io(text("denied")).to_string(), "failed to read config: denied");
    assert_eq!(ConfigError::Parse(text("bad")).to_string(), "failed to parse config: bad");
}

#[test]
fn metadata_and_report_errors() {
    assert_eq!(
        MetadataError::Exec(text("no manifest")).to_string(),
        "failed to execute `cargo metadata`: no manifest"
    );
    assert_eq!(ReportError::Json(text("x")).to_string(), "JSON serialization failed: x");
    assert_eq!(ReportError::Template(text("x")).to_string(), "HTML template rendering failed: x");
    assert_eq!(ReportError::Io(text("x")).to_string(), "failed to write report file: x");
}

#[test]
fn freshness_errors() {
    let cases = vec![
        (FreshnessError::HttpClient(text("tls")), "failed to build HTTP client: tls"),
        (
            FreshnessError::HttpRequest { crate_name: text("serde"), source: text("timeout") },
            "HTTP request failed for crate `serde`: timeout",
        ),
        (
            FreshnessError::HttpStatus {
                crate_name: text("serde"),
                status: StatusCode::new(404).unwrap(),
            },
            "crates.io returned HTTP 404 Not Found for crate `serde`",
        ),
        (
            FreshnessError::ParseResponse { crate_name: text("serde"), source: text("eof") },
            "failed to parse crates.io response for `serde`: eof",
        ),
        (FreshnessError::NoCacheDir, "could not determine platform cache directory"),
        (FreshnessError::CacheIo(text("full")), "cache I/O error: full"),
        (
            FreshnessError::CacheParse { path: text("a.json"), source: text("eof") },
            "cache parse error for a.json: eof",
        ),
        (FreshnessError::TaskPanicked, "freshness task panicked"),
        (
            FreshnessError::InvalidCrateName(text("../x")),
            "invalid crate name in dependency tree: `../x`",
        ),
    ];
    for (error, message) in cases {
        assert_eq!(error.to_string(), message);
    }
}

#[test]
fn errors_are_wrapped() {
    let config: EscudoError = ConfigError::Io(text("x")).into();
    let metadata: EscudoError = MetadataError::Exec(text("x")).into();
    let freshness: EscudoError = FreshnessError::TaskPanicked.into();
    let report: EscudoError = ReportError::Io(text("x")).into();
    assert_eq!(config.to_string(), "config error: failed to read config: x");
    assert_eq!(
        metadata.to_string(),
        "metadata error: failed to execute `cargo metadata`: x"
    );
    assert_eq!(freshness.to_string(), "freshness check error: freshness task panicked");
    assert_eq!(report.to_string(), "report error: failed to write report file: x");
}

#[test]
fn violations_are_described() {
    let fresh = Violation::Freshness(FreshnessViolation {
        crate_name: text("serde"),
        version: text("1.0.0"),
        published: Timestamp::new(0, 0).unwrap(),
        age_days: 2,
        cooldown_days: 7,
    });
    assert_eq!(
        fresh.to_string(),
        "crate `serde` v1.0.0 published only 2 days ago (cooldown: 7 days)"
    );
    let policy = Violation::Policy(PolicyViolation::BannedCrate {
        name: text("evil"),
        version: text("0.1.0"),
    });
    assert_eq!(policy.to_string(), "banned crate: evil v0.1.0");
    let unverified = Violation::Unverified { crate_name: text("gone"), version: text("0.1.0") };
    assert_eq!(
        unverified.to_string(),
        "could not verify gone v0.1.0 — version not found in crates.io API response"
    );
}

#[test]
fn a_status_is_described() {
    assert_eq!(
        describe_status("418 I'm a teapot", "serde"),
        "crates.io returned HTTP 418 I'm a teapot for crate `serde`"
    );
}
