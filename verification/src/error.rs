//! What can go wrong, and what the audit finds.

use vstd::prelude::*;

use crate::freshness::{FreshnessViolation, FreshnessViolationView};
use crate::http::{status_text, StatusCode};
use crate::numeral::{decimal, decimal_text, signed_decimal, signed_decimal_text};
use crate::policy::{policy_message, PolicyViolation, PolicyViolationView};
use crate::text::{contains_text, parts_are_contained};

verus! {

/// Errors from freshness/crates.io checks.
#[derive(Debug, Clone)]
pub enum FreshnessError {
    /// The HTTP client could not be built.
    HttpClient(String),
    /// A request could not be sent, or its response not received.
    HttpRequest { crate_name: String, source: String },
    /// A response had a status that is not a success.
    HttpStatus { crate_name: String, status: StatusCode },
    /// The body of a response could not be read.
    ParseResponse { crate_name: String, source: String },
    /// The platform has no cache directory.
    NoCacheDir,
    /// A cache file could not be read or written.
    CacheIo(String),
    /// A cache file does not hold what it should.
    CacheParse { path: String, source: String },
    /// The task that fetched a crate panicked.
    TaskPanicked,
    /// A crate has a name that crates.io would not accept.
    InvalidCrateName(String),
}

/// Model of a [`FreshnessError`].
pub enum FreshnessErrorView {
    HttpClient(Seq<char>),
    HttpRequest { crate_name: Seq<char>, source: Seq<char> },
    HttpStatus { crate_name: Seq<char>, status: u16 },
    ParseResponse { crate_name: Seq<char>, source: Seq<char> },
    NoCacheDir,
    CacheIo(Seq<char>),
    CacheParse { path: Seq<char>, source: Seq<char> },
    TaskPanicked,
    InvalidCrateName(Seq<char>),
}

impl DeepView for FreshnessError {
    type V = FreshnessErrorView;

    open spec fn deep_view(&self) -> FreshnessErrorView {
        match *self {
            FreshnessError::HttpClient(source) => FreshnessErrorView::HttpClient(source@),
            FreshnessError::HttpRequest { crate_name, source } => FreshnessErrorView::HttpRequest {
                crate_name: crate_name@,
                source: source@,
            },
            FreshnessError::HttpStatus { crate_name, status } => FreshnessErrorView::HttpStatus {
                crate_name: crate_name@,
                status: status.deep_view(),
            },
            FreshnessError::ParseResponse { crate_name, source } =>
                FreshnessErrorView::ParseResponse { crate_name: crate_name@, source: source@ },
            FreshnessError::NoCacheDir => FreshnessErrorView::NoCacheDir,
            FreshnessError::CacheIo(source) => FreshnessErrorView::CacheIo(source@),
            FreshnessError::CacheParse { path, source } => FreshnessErrorView::CacheParse {
                path: path@,
                source: source@,
            },
            FreshnessError::TaskPanicked => FreshnessErrorView::TaskPanicked,
            FreshnessError::InvalidCrateName(name) => FreshnessErrorView::InvalidCrateName(name@),
        }
    }
}

/// Errors from config loading/parsing.
#[derive(Debug, Clone)]
pub enum ConfigError {
    /// The file that was named does not exist.
    NotFound { path: String },
    /// The file could not be read.
    Io(String),
    /// The file does not hold a configuration.
    Parse(String),
}

/// Errors from dependency resolution.
#[derive(Debug, Clone)]
pub enum MetadataError {
    /// `cargo metadata` failed.
    Exec(String),
}

/// Errors from report generation.
#[derive(Debug, Clone)]
pub enum ReportError {
    /// The report could not be written as JSON.
    Json(String),
    /// The report could not be written as HTML.
    Template(String),
    /// The report file could not be written.
    Io(String),
}

/// Top-level error type for the escudo library.
#[derive(Debug, Clone)]
pub enum EscudoError {
    Config(ConfigError),
    Metadata(MetadataError),
    Freshness(FreshnessError),
    Report(ReportError),
}

impl ConfigError {
    /// The message of the error.
    pub open spec fn message(&self) -> Seq<char> {
        match *self {
            ConfigError::NotFound { path } => "config file not found: "@ + path@,
            ConfigError::Io(source) => "failed to read config: "@ + source@,
            ConfigError::Parse(source) => "failed to parse config: "@ + source@,
        }
    }

    /// The message of the error.
    pub fn to_string(&self) -> (message: String)
        ensures
            message@ == self.message(),
    {
        match self {
            ConfigError::NotFound { path } => "config file not found: ".to_owned().concat(
                path.as_str(),
            ),
            ConfigError::Io(source) => "failed to read config: ".to_owned().concat(
                source.as_str(),
            ),
            ConfigError::Parse(source) => "failed to parse config: ".to_owned().concat(
                source.as_str(),
            ),
        }
    }
}

impl MetadataError {
    /// The message of the error.
    pub open spec fn message(&self) -> Seq<char> {
        match *self {
            MetadataError::Exec(source) => "failed to execute `cargo metadata`: "@ + source@,
        }
    }

    /// The message of the error.
    pub fn to_string(&self) -> (message: String)
        ensures
            message@ == self.message(),
    {
        match self {
            MetadataError::Exec(source) => "failed to execute `cargo metadata`: ".to_owned().concat(
                source.as_str(),
            ),
        }
    }
}

impl ReportError {
    /// The message of the error.
    pub open spec fn message(&self) -> Seq<char> {
        match *self {
            ReportError::Json(source) => "JSON serialization failed: "@ + source@,
            ReportError::Template(source) => "HTML template rendering failed: "@ + source@,
            ReportError::Io(source) => "failed to write report file: "@ + source@,
        }
    }

    /// The message of the error.
    pub fn to_string(&self) -> (message: String)
        ensures
            message@ == self.message(),
    {
        match self {
            ReportError::Json(source) => "JSON serialization failed: ".to_owned().concat(
                source.as_str(),
            ),
            ReportError::Template(source) => "HTML template rendering failed: ".to_owned().concat(
                source.as_str(),
            ),
            ReportError::Io(source) => "failed to write report file: ".to_owned().concat(
                source.as_str(),
            ),
        }
    }
}

/// The message about a status that is not a success.
pub open spec fn status_message(status: Seq<char>, crate_name: Seq<char>) -> Seq<char> {
    "crates.io returned HTTP "@ + status + " for crate `"@ + crate_name + "`"@
}

/// The message about a status that is not a success, as the status is shown.
pub fn describe_status(status: &str, crate_name: &str) -> (message: String)
    ensures
        message@ == status_message(status@, crate_name@),
{
    let mut m = "crates.io returned HTTP ".to_owned();
    m.append(status);
    m.append(" for crate `");
    m.append(crate_name);
    m.append("`");
    m
}

impl FreshnessError {
    /// The message of the error.
    pub open spec fn message(&self) -> Seq<char> {
        match self.deep_view() {
            FreshnessErrorView::HttpClient(source) => "failed to build HTTP client: "@ + source,
            FreshnessErrorView::HttpRequest { crate_name, source } =>
                "HTTP request failed for crate `"@ + crate_name + "`: "@ + source,
            FreshnessErrorView::HttpStatus { crate_name, status } => status_message(
                status_text(status),
                crate_name,
            ),
            FreshnessErrorView::ParseResponse { crate_name, source } =>
                "failed to parse crates.io response for `"@ + crate_name + "`: "@ + source,
            FreshnessErrorView::NoCacheDir => "could not determine platform cache directory"@,
            FreshnessErrorView::CacheIo(source) => "cache I/O error: "@ + source,
            FreshnessErrorView::CacheParse { path, source } => "cache parse error for "@ + path
                + ": "@ + source,
            FreshnessErrorView::TaskPanicked => "freshness task panicked"@,
            FreshnessErrorView::InvalidCrateName(name) =>
                "invalid crate name in dependency tree: `"@ + name + "`"@,
        }
    }

    /// The message of the error.
    pub fn to_string(&self) -> (message: String)
        ensures
            message@ == self.message(),
    {
        match self {
            FreshnessError::HttpClient(source) => "failed to build HTTP client: ".to_owned().concat(
                source.as_str(),
            ),
            FreshnessError::HttpRequest { crate_name, source } => {
                let mut m = "HTTP request failed for crate `".to_owned();
                m.append(crate_name.as_str());
                m.append("`: ");
                m.append(source.as_str());
                m
            },
            FreshnessError::HttpStatus { crate_name, status } => describe_status(
                status.to_string().as_str(),
                crate_name.as_str(),
            ),
            FreshnessError::ParseResponse { crate_name, source } => {
                let mut m = "failed to parse crates.io response for `".to_owned();
                m.append(crate_name.as_str());
                m.append("`: ");
                m.append(source.as_str());
                m
            },
            FreshnessError::NoCacheDir => "could not determine platform cache directory".to_owned(),
            FreshnessError::CacheIo(source) => "cache I/O error: ".to_owned().concat(
                source.as_str(),
            ),
            FreshnessError::CacheParse { path, source } => {
                let mut m = "cache parse error for ".to_owned();
                m.append(path.as_str());
                m.append(": ");
                m.append(source.as_str());
                m
            },
            FreshnessError::TaskPanicked => "freshness task panicked".to_owned(),
            FreshnessError::InvalidCrateName(name) => {
                let mut m = "invalid crate name in dependency tree: `".to_owned();
                m.append(name.as_str());
                m.append("`");
                m
            },
        }
    }
}

impl EscudoError {
    /// The message of the error.
    pub open spec fn message(&self) -> Seq<char> {
        match *self {
            EscudoError::Config(error) => "config error: "@ + error.message(),
            EscudoError::Metadata(error) => "metadata error: "@ + error.message(),
            EscudoError::Freshness(error) => "freshness check error: "@ + error.message(),
            EscudoError::Report(error) => "report error: "@ + error.message(),
        }
    }

    /// The message of the error.
    pub fn to_string(&self) -> (message: String)
        ensures
            message@ == self.message(),
    {
        match self {
            EscudoError::Config(error) => "config error: ".to_owned().concat(
                error.to_string().as_str(),
            ),
            EscudoError::Metadata(error) => "metadata error: ".to_owned().concat(
                error.to_string().as_str(),
            ),
            EscudoError::Freshness(error) => "freshness check error: ".to_owned().concat(
                error.to_string().as_str(),
            ),
            EscudoError::Report(error) => "report error: ".to_owned().concat(
                error.to_string().as_str(),
            ),
        }
    }
}

impl From<ConfigError> for EscudoError {
    fn from(error: ConfigError) -> (wrapped: Self) {
        EscudoError::Config(error)
    }
}

impl vstd::std_specs::convert::FromSpecImpl<ConfigError> for EscudoError {
    open spec fn obeys_from_spec() -> bool {
        true
    }

    open spec fn from_spec(error: ConfigError) -> Self {
        EscudoError::Config(error)
    }
}

impl From<MetadataError> for EscudoError {
    fn from(error: MetadataError) -> (wrapped: Self) {
        EscudoError::Metadata(error)
    }
}

impl vstd::std_specs::convert::FromSpecImpl<MetadataError> for EscudoError {
    open spec fn obeys_from_spec() -> bool {
        true
    }

    open spec fn from_spec(error: MetadataError) -> Self {
        EscudoError::Metadata(error)
    }
}

impl From<FreshnessError> for EscudoError {
    fn from(error: FreshnessError) -> (wrapped: Self) {
        EscudoError::Freshness(error)
    }
}

impl vstd::std_specs::convert::FromSpecImpl<FreshnessError> for EscudoError {
    open spec fn obeys_from_spec() -> bool {
        true
    }

    open spec fn from_spec(error: FreshnessError) -> Self {
        EscudoError::Freshness(error)
    }
}

impl From<ReportError> for EscudoError {
    fn from(error: ReportError) -> (wrapped: Self) {
        EscudoError::Report(error)
    }
}

impl vstd::std_specs::convert::FromSpecImpl<ReportError> for EscudoError {
    open spec fn obeys_from_spec() -> bool {
        true
    }

    open spec fn from_spec(error: ReportError) -> Self {
        EscudoError::Report(error)
    }
}

/// A single violation found during the escudo audit.
#[derive(Debug, Clone)]
pub enum Violation {
    /// A crate was published too recently.
    Freshness(FreshnessViolation),
    /// A policy rule was broken.
    Policy(PolicyViolation),
    /// A crate version we depend on was not found in the crates.io API response.
    /// This could indicate a yanked version, a registry inconsistency, or a
    /// compromised API omitting versions to bypass freshness checks.
    Unverified { crate_name: String, version: String },
}

/// Model of a [`Violation`].
pub enum ViolationView {
    Freshness(FreshnessViolationView),
    Policy(PolicyViolationView),
    Unverified { crate_name: Seq<char>, version: Seq<char> },
}

impl DeepView for Violation {
    type V = ViolationView;

    open spec fn deep_view(&self) -> ViolationView {
        match *self {
            Violation::Freshness(violation) => ViolationView::Freshness(violation.deep_view()),
            Violation::Policy(violation) => ViolationView::Policy(violation.deep_view()),
            Violation::Unverified { crate_name, version } => ViolationView::Unverified {
                crate_name: crate_name@,
                version: version@,
            },
        }
    }
}

/// The message that describes a violation.
pub open spec fn violation_message(violation: ViolationView) -> Seq<char> {
    match violation {
        ViolationView::Freshness(v) => "crate `"@ + v.crate_name + "` v"@ + v.version
            + " published only "@ + signed_decimal(v.age_days) + " days ago (cooldown: "@ + decimal(
            v.cooldown_days as nat,
        ) + " days)"@,
        ViolationView::Policy(v) => policy_message(v),
        ViolationView::Unverified { crate_name, version } => "could not verify "@ + crate_name
            + " v"@ + version + " — version not found in crates.io API response"@,
    }
}

impl Violation {
    /// The message that describes the violation.
    pub fn to_string(&self) -> (message: String)
        ensures
            message@ == violation_message(self.deep_view()),
    {
        match self {
            Violation::Freshness(v) => {
                let mut m = "crate `".to_owned();
                m.append(v.crate_name.as_str());
                m.append("` v");
                m.append(v.version.as_str());
                m.append(" published only ");
                m.append(signed_decimal_text(v.age_days).as_str());
                m.append(" days ago (cooldown: ");
                m.append(decimal_text(v.cooldown_days as u128).as_str());
                m.append(" days)");
                m
            },
            Violation::Policy(v) => v.to_string(),
            Violation::Unverified { crate_name, version } => {
                let mut m = "could not verify ".to_owned();
                m.append(crate_name.as_str());
                m.append(" v");
                m.append(version.as_str());
                m.append(" — version not found in crates.io API response");
                m
            },
        }
    }
}

/// The message of a violation tells what it is about.
pub proof fn violation_messages_tell_what_they_are_about(violation: ViolationView)
    ensures
        match violation {
            ViolationView::Freshness(v) => {
                &&& contains_text(violation_message(violation), v.crate_name)
                &&& contains_text(violation_message(violation), v.version)
                &&& contains_text(violation_message(violation), signed_decimal(v.age_days))
                &&& contains_text(violation_message(violation), decimal(v.cooldown_days as nat))
            },
            ViolationView::Policy(v) => violation_message(violation) == policy_message(v),
            ViolationView::Unverified { crate_name, version } => contains_text(
                violation_message(violation),
                crate_name,
            ) && contains_text(violation_message(violation), version),
        },
{
    let message = violation_message(violation);
    match violation {
        ViolationView::Freshness(v) => {
            let age = signed_decimal(v.age_days);
            let days = decimal(v.cooldown_days as nat);
            let a = "crate `"@;
            let b = "` v"@;
            let c = " published only "@;
            let d = " days ago (cooldown: "@;
            let e = " days)"@;
            parts_are_contained(a, v.crate_name, b + v.version + c + age + d + days + e);
            parts_are_contained(a + v.crate_name + b, v.version, c + age + d + days + e);
            parts_are_contained(a + v.crate_name + b + v.version + c, age, d + days + e);
            parts_are_contained(a + v.crate_name + b + v.version + c + age + d, days, e);
            assert(message =~= a + v.crate_name + (b + v.version + c + age + d + days + e));
            assert(message =~= a + v.crate_name + b + v.version + (c + age + d + days + e));
            assert(message =~= a + v.crate_name + b + v.version + c + age + (d + days + e));
        },
        ViolationView::Policy(_) => {},
        ViolationView::Unverified { crate_name, version } => {
            let a = "could not verify "@;
            let b = " v"@;
            let c = " — version not found in crates.io API response"@;
            parts_are_contained(a, crate_name, b + version + c);
            parts_are_contained(a + crate_name + b, version, c);
            assert(message =~= a + crate_name + (b + version + c));
        },
    }
}

/// A wrapped error ends with the message of what it wraps.
pub proof fn wrapped_messages_are_kept(error: EscudoError)
    ensures
        match error {
            EscudoError::Config(e) => e.message().is_suffix_of(error.message()),
            EscudoError::Metadata(e) => e.message().is_suffix_of(error.message()),
            EscudoError::Freshness(e) => e.message().is_suffix_of(error.message()),
            EscudoError::Report(e) => e.message().is_suffix_of(error.message()),
        },
{
    let message = error.message();
    let len = message.len() as int;
    match error {
        EscudoError::Config(e) => {
            assert(message.subrange(len - e.message().len(), len) =~= e.message());
        },
        EscudoError::Metadata(e) => {
            assert(message.subrange(len - e.message().len(), len) =~= e.message());
        },
        EscudoError::Freshness(e) => {
            assert(message.subrange(len - e.message().len(), len) =~= e.message());
        },
        EscudoError::Report(e) => {
            assert(message.subrange(len - e.message().len(), len) =~= e.message());
        },
    }
}

/// The message of a freshness error tells of the crate, and of what lies behind
/// it.
pub proof fn freshness_errors_tell(error: FreshnessError)
    ensures
        match error.deep_view() {
            FreshnessErrorView::HttpClient(source) => contains_text(error.message(), source),
            FreshnessErrorView::HttpRequest { crate_name, source } => contains_text(
                error.message(),
                crate_name,
            ) && contains_text(error.message(), source),
            FreshnessErrorView::HttpStatus { crate_name, status } => contains_text(
                error.message(),
                crate_name,
            ) && contains_text(error.message(), status_text(status)),
            FreshnessErrorView::ParseResponse { crate_name, source } => contains_text(
                error.message(),
                crate_name,
            ) && contains_text(error.message(), source),
            FreshnessErrorView::NoCacheDir => true,
            FreshnessErrorView::CacheIo(source) => contains_text(error.message(), source),
            FreshnessErrorView::CacheParse { path, source } => contains_text(
                error.message(),
                path,
            ) && contains_text(error.message(), source),
            FreshnessErrorView::TaskPanicked => true,
            FreshnessErrorView::InvalidCrateName(name) => contains_text(error.message(), name),
        },
{
    let message = error.message();
    match error.deep_view() {
        FreshnessErrorView::HttpClient(source) => {
            tells_one("failed to build HTTP client: "@, source, Seq::empty(), message);
        },
        FreshnessErrorView::HttpRequest { crate_name, source } => {
            tells_two(
                "HTTP request failed for crate `"@,
                crate_name,
                "`: "@,
                source,
                Seq::empty(),
                message,
            );
        },
        FreshnessErrorView::HttpStatus { crate_name, status } => {
            tells_two(
                "crates.io returned HTTP "@,
                status_text(status),
                " for crate `"@,
                crate_name,
                "`"@,
                message,
            );
        },
        FreshnessErrorView::ParseResponse { crate_name, source } => {
            tells_two(
                "failed to parse crates.io response for `"@,
                crate_name,
                "`: "@,
                source,
                Seq::empty(),
                message,
            );
        },
        FreshnessErrorView::NoCacheDir => {},
        FreshnessErrorView::CacheIo(source) => {
            tells_one("cache I/O error: "@, source, Seq::empty(), message);
        },
        FreshnessErrorView::CacheParse { path, source } => {
            tells_two("cache parse error for "@, path, ": "@, source, Seq::empty(), message);
        },
        FreshnessErrorView::TaskPanicked => {},
        FreshnessErrorView::InvalidCrateName(name) => {
            tells_one("invalid crate name in dependency tree: `"@, name, "`"@, message);
        },
    }
}

/// A message made around one text tells it.
proof fn tells_one(a: Seq<char>, x: Seq<char>, b: Seq<char>, message: Seq<char>)
    requires
        message =~= a + x + b,
    ensures
        contains_text(message, x),
{
    parts_are_contained(a, x, b);
}

/// A message made around two texts tells both.
proof fn tells_two(
    a: Seq<char>,
    x: Seq<char>,
    b: Seq<char>,
    y: Seq<char>,
    c: Seq<char>,
    message: Seq<char>,
)
    requires
        message =~= a + x + b + y + c,
    ensures
        contains_text(message, x),
        contains_text(message, y),
{
    parts_are_contained(a, x, b + y + c);
    parts_are_contained(a + x + b, y, c);
    assert(message =~= a + x + (b + y + c));
}

/// The message of every other error tells what lies behind it.
pub proof fn other_errors_tell(config: ConfigError, metadata: MetadataError, report: ReportError)
    ensures
        match config {
            ConfigError::NotFound { path } => path@.is_suffix_of(config.message()),
            ConfigError::Io(source) => source@.is_suffix_of(config.message()),
            ConfigError::Parse(source) => source@.is_suffix_of(config.message()),
        },
        match metadata {
            MetadataError::Exec(source) => source@.is_suffix_of(metadata.message()),
        },
        match report {
            ReportError::Json(source) => source@.is_suffix_of(report.message()),
            ReportError::Template(source) => source@.is_suffix_of(report.message()),
            ReportError::Io(source) => source@.is_suffix_of(report.message()),
        },
{
    match config {
        ConfigError::NotFound { path } => ends_with("config file not found: "@, path@),
        ConfigError::Io(source) => ends_with("failed to read config: "@, source@),
        ConfigError::Parse(source) => ends_with("failed to parse config: "@, source@),
    }
    match metadata {
        MetadataError::Exec(source) => ends_with("failed to execute `cargo metadata`: "@, source@),
    }
    match report {
        ReportError::Json(source) => ends_with("JSON serialization failed: "@, source@),
        ReportError::Template(source) => ends_with("HTML template rendering failed: "@, source@),
        ReportError::Io(source) => ends_with("failed to write report file: "@, source@),
    }
}

/// A text ends with what is put behind it.
proof fn ends_with(front: Seq<char>, back: Seq<char>)
    ensures
        back.is_suffix_of(front + back),
{
    let whole = front + back;
    assert(whole.subrange(whole.len() - back.len(), whole.len() as int) =~= back);
}

/// Messages about violations are made by one pattern: the pieces around what a
/// violation is about are the same for all of them.
pub proof fn violation_messages_have_one_pattern() -> (p: Seq<Seq<char>>)
    ensures
        p.len() == 8,
        forall|v: FreshnessViolationView|
            #[trigger] violation_message(ViolationView::Freshness(v)) == p[0] + v.crate_name
            + p[1] + v.version + p[2] + signed_decimal(v.age_days) + p[3]
            + decimal(v.cooldown_days as nat) + p[4],
        forall|crate_name: Seq<char>, version: Seq<char>| #[trigger] violation_message(
            ViolationView::Unverified { crate_name, version },
        ) == p[5] + crate_name + p[6] + version + p[7],
{
    let p = seq![
        "crate `"@,
        "` v"@,
        " published only "@,
        " days ago (cooldown: "@,
        " days)"@,
        "could not verify "@,
        " v"@,
        " — version not found in crates.io API response"@,
    ];
    assert forall|v: FreshnessViolationView|
        #[trigger] violation_message(ViolationView::Freshness(v)) == p[0] + v.crate_name + p[1]
        + v.version + p[2] + signed_decimal(v.age_days) + p[3]
        + decimal(v.cooldown_days as nat) + p[4] by {
        assert(violation_message(ViolationView::Freshness(v)) =~= p[0] + v.crate_name + p[1]
            + v.version + p[2] + signed_decimal(v.age_days) + p[3]
            + decimal(v.cooldown_days as nat) + p[4]);
    }
    assert forall|crate_name: Seq<char>, version: Seq<char>| #[trigger] violation_message(
            ViolationView::Unverified { crate_name, version },
        ) == p[5] + crate_name + p[6] + version + p[7] by {
        assert(violation_message(
            ViolationView::Unverified { crate_name, version },
        ) =~= p[5] + crate_name + p[6] + version + p[7]);
    }
    p
}

/// Messages about a status are made by one pattern.
pub proof fn status_messages_have_one_pattern() -> (p: Seq<Seq<char>>)
    ensures
        p.len() == 3,
        forall|status: Seq<char>, crate_name: Seq<char>|
            #[trigger] status_message(status, crate_name) == p[0] + status + p[1] + crate_name
            + p[2],
{
    let p = seq![
        "crates.io returned HTTP "@,
        " for crate `"@,
        "`"@,
    ];
    assert forall|status: Seq<char>, crate_name: Seq<char>|
        #[trigger] status_message(status, crate_name) == p[0] + status + p[1] + crate_name
        + p[2] by {
        assert(status_message(status, crate_name) =~= p[0] + status + p[1] + crate_name + p[2]);
    }
    p
}

} // verus!
