//! Whether escudo itself should be upgraded to the latest version.

use vstd::prelude::*;

use crate::numeral::{decimal, signed_decimal, signed_decimal_text};
use crate::text::{contains_text, parts_are_contained, same_text};
use crate::time::{
    age_in_nanos, elapsed_days, elapsed_nanos, later, nanos_per_day, parsed_date, Instant,
    Timestamp,
};

verus! {

/// Freshness cooldown for escudo's own upgrades (days).
pub const SELF_UPGRADE_COOLDOWN_DAYS: i64 = 7;

/// Timeout of the request for the latest version, in seconds.
pub const UPGRADE_TIMEOUT_SECS: u64 = 15;

/// A JSON value, as far as an answer of crates.io is read.
#[derive(Debug)]
pub enum Json {
    /// A string.
    Text(String),
    /// An array.
    List(Vec<Json>),
    /// An object, as its members.
    Object(Vec<(String, Json)>),
    /// `null`, a number or a truth value.
    Other,
}

/// The member with the given key.
pub open spec fn member(members: Seq<(String, Json)>, key: Seq<char>) -> Option<Json>
    decreases members.len(),
{
    if members.len() == 0 {
        None
    } else if members[0].0@ == key {
        Some(members[0].1)
    } else {
        member(members.skip(1), key)
    }
}

/// The value under a key, where there is one.
pub open spec fn value_at(json: Option<Json>, key: Seq<char>) -> Option<Json> {
    match json {
        Some(Json::Object(members)) => member(members@, key),
        _ => None,
    }
}

/// The string, where the value is one.
pub open spec fn text_of(json: Option<Json>) -> Option<Seq<char>> {
    match json {
        Some(Json::Text(text)) => Some(text@),
        _ => None,
    }
}

/// The items, where the value is an array.
pub open spec fn items_of(json: Option<Json>) -> Option<Seq<Json>> {
    match json {
        Some(Json::List(items)) => Some(items@),
        _ => None,
    }
}

/// The value that is referred to, if there is one.
pub open spec fn referent(json: Option<&Json>) -> Option<Json> {
    match json {
        Some(j) => Some(*j),
        None => None,
    }
}

/// The characters of a string, if there is one.
pub open spec fn text_view(text: Option<&String>) -> Option<Seq<char>> {
    match text {
        Some(t) => Some(t@),
        None => None,
    }
}

/// The value under a key, where there is one.
fn get<'a>(json: Option<&'a Json>, key: &str) -> (value: Option<&'a Json>)
    ensures
        referent(value) == value_at(referent(json), key@),
{
    let members = match json {
        Some(Json::Object(members)) => members,
        _ => {
            return None;
        },
    };
    let ghost all = members@;
    assert(all.skip(0) =~= all);
    let mut i: usize = 0;
    while i < members.len()
        invariant
            i <= members@.len(),
            all == members@,
            value_at(referent(json), key@) == member(all, key@),
            member(all, key@) == member(all.skip(i as int), key@),
        decreases members@.len() - i,
    {
        assert(all.skip(i as int)[0] == all[i as int]);
        if same_text(members[i].0.as_str(), key) {
            return Some(&members[i].1);
        }
        assert(all.skip(i as int).skip(1) =~= all.skip(i + 1));
        i = i + 1;
    }
    None
}

/// The string, where the value is one.
fn as_text<'a>(json: Option<&'a Json>) -> (text: Option<&'a String>)
    ensures
        text_view(text) == text_of(referent(json)),
{
    match json {
        Some(Json::Text(text)) => Some(text),
        _ => None,
    }
}

/// The version that crates.io calls the newest.
pub open spec fn newest_version(response: Json) -> Option<Seq<char>> {
    text_of(value_at(value_at(Some(response), "crate"@), "newest_version"@))
}

/// The versions that crates.io lists.
pub open spec fn listed_versions(response: Json) -> Option<Seq<Json>> {
    items_of(value_at(Some(response), "versions"@))
}

/// The publish date of the first version with the given number, as it is
/// written.
pub open spec fn publish_date(versions: Seq<Json>, num: Seq<char>) -> Option<Seq<char>>
    decreases versions.len(),
{
    if versions.len() == 0 {
        None
    } else if text_of(value_at(Some(versions[0]), "num"@)) == Some(num) {
        text_of(value_at(Some(versions[0]), "created_at"@))
    } else {
        publish_date(versions.skip(1), num)
    }
}

/// What is wrong with the answer of crates.io.
#[derive(Debug, Clone, Copy, PartialEq, Eq)]
pub enum ResponseError {
    MissingNewestVersion,
    MissingVersions,
    MissingPublishDate,
}

impl ResponseError {
    /// The message of the error.
    pub open spec fn message(self) -> Seq<char> {
        match self {
            ResponseError::MissingNewestVersion => "missing newest_version in crates.io response"@,
            ResponseError::MissingVersions => "missing versions array in crates.io response"@,
            ResponseError::MissingPublishDate => "could not find publish date for latest version"@,
        }
    }

    /// The message of the error.
    pub fn to_string(&self) -> (message: String)
        ensures
            message@ == self.message(),
    {
        match self {
            ResponseError::MissingNewestVersion => {
                "missing newest_version in crates.io response".to_owned()
            },
            ResponseError::MissingVersions => {
                "missing versions array in crates.io response".to_owned()
            },
            ResponseError::MissingPublishDate => {
                "could not find publish date for latest version".to_owned()
            },
        }
    }
}

/// The latest release, as crates.io tells of it.
#[derive(Debug, Clone)]
pub enum Release {
    /// It is the version that runs.
    Current,
    /// It is another version, with the publish date as it is written.
    Other { version: String, published: String },
}

/// Model of a [`Release`].
pub enum ReleaseView {
    Current,
    Other { version: Seq<char>, published: Seq<char> },
}

impl DeepView for Release {
    type V = ReleaseView;

    open spec fn deep_view(&self) -> ReleaseView {
        match self {
            Release::Current => ReleaseView::Current,
            Release::Other { version, published } => ReleaseView::Other {
                version: version@,
                published: published@,
            },
        }
    }
}

/// What an answer of crates.io says of the latest release.
pub open spec fn latest_release(response: Json, current: Seq<char>) -> Result<
    ReleaseView,
    ResponseError,
> {
    match newest_version(response) {
        None => Err(ResponseError::MissingNewestVersion),
        Some(version) => if version == current {
            Ok(ReleaseView::Current)
        } else {
            match listed_versions(response) {
                None => Err(ResponseError::MissingVersions),
                Some(versions) => match publish_date(versions, version) {
                    None => Err(ResponseError::MissingPublishDate),
                    Some(published) => Ok(ReleaseView::Other { version, published }),
                },
            }
        },
    }
}

/// Finds the publish date of the first version with the given number.
fn find_publish_date<'a>(versions: &'a Vec<Json>, num: &str) -> (date: Option<&'a String>)
    ensures
        text_view(date) == publish_date(versions@, num@),
{
    let ghost all = versions@;
    assert(all.skip(0) =~= all);
    let mut i: usize = 0;
    while i < versions.len()
        invariant
            i <= versions@.len(),
            all == versions@,
            publish_date(all, num@) == publish_date(all.skip(i as int), num@),
        decreases versions@.len() - i,
    {
        assert(all.skip(i as int)[0] == all[i as int]);
        let version = &versions[i];
        match as_text(get(Some(version), "num")) {
            Some(text) => {
                if same_text(text.as_str(), num) {
                    return as_text(get(Some(version), "created_at"));
                }
            },
            None => {},
        }
        assert(all.skip(i as int).skip(1) =~= all.skip(i + 1));
        i = i + 1;
    }
    None
}

/// Read what an answer of crates.io says of the latest release.
pub fn find_release(response: &Json, current: &str) -> (release: Result<Release, ResponseError>)
    ensures
        match release {
            Ok(r) => latest_release(*response, current@) == Ok::<_, ResponseError>(r.deep_view()),
            Err(e) => latest_release(*response, current@) == Err::<ReleaseView, _>(e),
        },
{
    let latest = match as_text(get(get(Some(response), "crate"), "newest_version")) {
        Some(latest) => latest,
        None => {
            return Err(ResponseError::MissingNewestVersion);
        },
    };
    if same_text(latest.as_str(), current) {
        return Ok(Release::Current);
    }
    let versions = match get(Some(response), "versions") {
        Some(Json::List(versions)) => versions,
        _ => {
            return Err(ResponseError::MissingVersions);
        },
    };
    match find_publish_date(versions, latest.as_str()) {
        Some(published) => Ok(
            Release::Other { version: latest.clone(), published: published.clone() },
        ),
        None => Err(ResponseError::MissingPublishDate),
    }
}

/// Whether to upgrade.
#[derive(Debug, Clone)]
pub enum UpgradeDecision {
    /// The latest version runs already.
    UpToDate,
    /// The latest version is too fresh.
    TooFresh { version: String, age_days: i64 },
    /// The latest version is old enough to trust.
    Upgrade { version: String },
}

/// Model of an [`UpgradeDecision`].
pub enum UpgradeDecisionView {
    UpToDate,
    TooFresh { version: Seq<char>, age_days: int },
    Upgrade { version: Seq<char> },
}

impl DeepView for UpgradeDecision {
    type V = UpgradeDecisionView;

    open spec fn deep_view(&self) -> UpgradeDecisionView {
        match self {
            UpgradeDecision::UpToDate => UpgradeDecisionView::UpToDate,
            UpgradeDecision::TooFresh { version, age_days } => UpgradeDecisionView::TooFresh {
                version: version@,
                age_days: *age_days as int,
            },
            UpgradeDecision::Upgrade { version } => UpgradeDecisionView::Upgrade {
                version: version@,
            },
        }
    }
}

/// The decision on another version with the given publish date.
pub open spec fn upgrade_decision(
    version: Seq<char>,
    published: Instant,
    now: Instant,
) -> UpgradeDecisionView {
    if elapsed_days(now, published) < SELF_UPGRADE_COOLDOWN_DAYS {
        UpgradeDecisionView::TooFresh { version, age_days: elapsed_days(now, published) }
    } else {
        UpgradeDecisionView::Upgrade { version }
    }
}

/// Decide on another version with the given publish date.
pub fn decide_upgrade(version: String, published: &Timestamp, now: &Timestamp) -> (decision:
    UpgradeDecision)
    ensures
        decision.deep_view() == upgrade_decision(version@, published.deep_view(), now.deep_view()),
{
    let age_days: i64 = now.days_since(published);
    if age_days < SELF_UPGRADE_COOLDOWN_DAYS {
        UpgradeDecision::TooFresh { version, age_days }
    } else {
        UpgradeDecision::Upgrade { version }
    }
}

/// Why no decision can be taken.
#[derive(Debug)]
pub enum UpgradeError {
    /// The answer of crates.io lacks something.
    Response(ResponseError),
    /// The publish date cannot be read.
    Date(chrono::ParseError),
}

/// Model of an [`UpgradeError`], without what the calendar library says of a
/// date.
pub enum UpgradeErrorView {
    Response(ResponseError),
    Date,
}

/// What comes of an answer of crates.io.
pub open spec fn upgrade_outcome(
    response: Json,
    current: Seq<char>,
    now: Instant,
) -> Result<UpgradeDecisionView, UpgradeErrorView> {
    match latest_release(response, current) {
        Err(e) => Err(UpgradeErrorView::Response(e)),
        Ok(ReleaseView::Current) => Ok(UpgradeDecisionView::UpToDate),
        Ok(ReleaseView::Other { version, published }) => match parsed_date(published) {
            None => Err(UpgradeErrorView::Date),
            Some((secs, nanos)) => Ok(
                upgrade_decision(version, Instant { secs, nanos }, now),
            ),
        },
    }
}

/// Check that the latest version of escudo on crates.io is old enough to trust.
pub fn check_upgrade(response: &Json, current: &str, now: &Timestamp) -> (decision: Result<
    UpgradeDecision,
    UpgradeError,
>)
    ensures
        match latest_release(*response, current@) {
            Err(e) => decision == Err::<UpgradeDecision, _>(UpgradeError::Response(e)),
            Ok(ReleaseView::Current) => decision == Ok::<_, UpgradeError>(
                UpgradeDecision::UpToDate,
            ),
            Ok(ReleaseView::Other { version, published }) => match parsed_date(published) {
                None => decision matches Err(UpgradeError::Date(_)),
                Some((secs, nanos)) => {
                    &&& decision is Ok
                    &&& decision->Ok_0.deep_view() == upgrade_decision(
                        version,
                        Instant { secs, nanos },
                        now.deep_view(),
                    )
                },
            },
        },
        match decision {
            Ok(d) => upgrade_outcome(*response, current@, now.deep_view()) == Ok::<
                _,
                UpgradeErrorView,
            >(d.deep_view()),
            Err(UpgradeError::Response(e)) => upgrade_outcome(*response, current@, now.deep_view())
                == Err::<UpgradeDecisionView, _>(UpgradeErrorView::Response(e)),
            Err(UpgradeError::Date(_)) => upgrade_outcome(*response, current@, now.deep_view())
                == Err::<UpgradeDecisionView, _>(UpgradeErrorView::Date),
        },
{
    match find_release(response, current) {
        Err(e) => Err(UpgradeError::Response(e)),
        Ok(Release::Current) => Ok(UpgradeDecision::UpToDate),
        Ok(Release::Other { version, published }) => match Timestamp::parse(published.as_str()) {
            Ok(date) => Ok(decide_upgrade(version, &date, now)),
            Err(e) => Err(UpgradeError::Date(e)),
        },
    }
}

/// What is printed of a decision, line by line.
pub open spec fn decision_messages(
    decision: UpgradeDecisionView,
    current: Seq<char>,
) -> Seq<Seq<char>> {
    match decision {
        UpgradeDecisionView::UpToDate => seq![
            "already on the latest version (v"@ + current + ")"@,
        ],
        UpgradeDecisionView::TooFresh { version, age_days } => seq![
            "latest version v"@ + version + " was published "@ + signed_decimal(age_days)
                + " day(s) ago — too fresh (cooldown: "@ + decimal(
                SELF_UPGRADE_COOLDOWN_DAYS as nat,
            ) + " days)"@,
            "escudo applies its own freshness check to upgrades. try again later."@,
        ],
        UpgradeDecisionView::Upgrade { version } => seq![
            "upgrading escudo to v"@ + version + "..."@,
        ],
    }
}

impl UpgradeDecision {
    /// What is printed of the decision, line by line.
    pub fn messages(&self, current: &str) -> (lines: Vec<String>)
        ensures
            lines.deep_view() == decision_messages(self.deep_view(), current@),
    {
        let mut lines: Vec<String> = Vec::new();
        match self {
            UpgradeDecision::UpToDate => {
                let mut line = "already on the latest version (v".to_owned();
                line.append(current);
                line.append(")");
                lines.push(line);
            },
            UpgradeDecision::TooFresh { version, age_days } => {
                let mut line = "latest version v".to_owned();
                line.append(version.as_str());
                line.append(" was published ");
                line.append(signed_decimal_text(*age_days).as_str());
                line.append(" day(s) ago — too fresh (cooldown: ");
                line.append(signed_decimal_text(SELF_UPGRADE_COOLDOWN_DAYS).as_str());
                line.append(" days)");
                lines.push(line);
                lines.push(
                    "escudo applies its own freshness check to upgrades. try again later.".to_owned(),
                );
            },
            UpgradeDecision::Upgrade { version } => {
                let mut line = "upgrading escudo to v".to_owned();
                line.append(version.as_str());
                line.append("...");
                lines.push(line);
            },
        }
        assert(lines.deep_view() =~= decision_messages(self.deep_view(), current@));
        lines
    }
}

/// Only a version that has been out for the whole cooldown is upgraded to.
pub proof fn only_settled_versions(version: Seq<char>, published: Instant, now: Instant)
    ensures
        upgrade_decision(version, published, now) is Upgrade <==> elapsed_nanos(now, published)
            >= SELF_UPGRADE_COOLDOWN_DAYS * nanos_per_day(),
{
    age_in_nanos(now, published, SELF_UPGRADE_COOLDOWN_DAYS as int);
}

/// A version with a publish date in the future is not upgraded to.
pub proof fn no_upgrade_to_the_future(version: Seq<char>, published: Instant, now: Instant)
    requires
        published.valid(),
        now.valid(),
        later(published, now),
    ensures
        upgrade_decision(version, published, now) is TooFresh,
{
    only_settled_versions(version, published, now);
}

/// The version that runs is never upgraded to.
pub proof fn no_upgrade_to_the_same_version(response: Json, current: Seq<char>)
    ensures
        match latest_release(response, current) {
            Ok(ReleaseView::Other { version, .. }) => version != current,
            _ => true,
        },
{
}

/// What is read under a key is the value of the first member with that key, and
/// nothing where no member has it.
pub proof fn keys_lead_to_their_first_value(members: Vec<(String, Json)>, key: Seq<char>, k: int)
    requires
        0 <= k <= members@.len(),
        k < members@.len() ==> members@[k].0@ == key,
        forall|j: int| 0 <= j < k ==> (#[trigger] members@[j]).0@ != key,
    ensures
        value_at(Some(Json::Object(members)), key) == (if k < members@.len() {
            Some(members@[k].1)
        } else {
            None
        }),
{
    first_member(members@, key, k);
}

/// The first member with a key is what is found under it.
proof fn first_member(members: Seq<(String, Json)>, key: Seq<char>, k: int)
    requires
        0 <= k <= members.len(),
        k < members.len() ==> members[k].0@ == key,
        forall|j: int| 0 <= j < k ==> (#[trigger] members[j]).0@ != key,
    ensures
        member(members, key) == (if k < members.len() {
            Some(members[k].1)
        } else {
            None
        }),
    decreases members.len(),
{
    if k > 0 {
        let rest = members.skip(1);
        assert(members[0].0@ != key);
        assert forall|j: int| 0 <= j < k - 1 implies (#[trigger] rest[j]).0@ != key by {
            assert(rest[j] == members[j + 1]);
        }
        first_member(rest, key, k - 1);
    }
}

/// Only an object has values under keys, only a string is text, and only an
/// array has items.
pub proof fn values_are_what_they_are(json: Json, key: Seq<char>)
    ensures
        json !is Object ==> value_at(Some(json), key) is None,
        value_at(None, key) is None,
        text_of(Some(json)) == (match json {
            Json::Text(text) => Some(text@),
            _ => None,
        }),
        text_of(None) is None,
        items_of(Some(json)) == (match json {
            Json::List(items) => Some(items@),
            _ => None,
        }),
        items_of(None) is None,
{
}

/// The publish date of a version is the `created_at` of the first listed
/// version with its number; a number that is not listed has none.
pub proof fn dates_are_those_of_the_first_listed(versions: Seq<Json>, num: Seq<char>, k: int)
    requires
        0 <= k <= versions.len(),
        k < versions.len() ==> text_of(value_at(Some(versions[k]), "num"@)) == Some(num),
        forall|j: int|
            0 <= j < k ==> text_of(value_at(Some(#[trigger] versions[j]), "num"@)) != Some(num),
    ensures
        publish_date(versions, num) == (if k < versions.len() {
            text_of(value_at(Some(versions[k]), "created_at"@))
        } else {
            None
        }),
    decreases versions.len(),
{
    if k > 0 {
        let rest = versions.skip(1);
        assert(text_of(value_at(Some(versions[0]), "num"@)) != Some(num));
        assert forall|j: int| 0 <= j < k - 1 implies text_of(
            value_at(Some(#[trigger] rest[j]), "num"@),
        ) != Some(num) by {
            assert(rest[j] == versions[j + 1]);
        }
        dates_are_those_of_the_first_listed(rest, num, k - 1);
    }
}

/// The running version is the latest exactly if the answer names it as the
/// newest, text for text; no order of versions comes in. The answer lacks the
/// newest version exactly if it names none.
pub proof fn current_means_named_as_newest(response: Json, current: Seq<char>)
    ensures
        latest_release(response, current) == Ok::<ReleaseView, ResponseError>(ReleaseView::Current)
            <==> text_of(
            value_at(value_at(Some(response), "crate"@), "newest_version"@),
        ) == Some(current),
        latest_release(response, current) == Err::<ReleaseView, _>(
            ResponseError::MissingNewestVersion,
        ) <==> text_of(
            value_at(value_at(Some(response), "crate"@), "newest_version"@),
        ) is None,
{
}

/// Every other newest version that is listed with a publish date is told of,
/// with the date of the first listed version of its number.
pub proof fn other_versions_are_told_of(
    response: Json,
    current: Seq<char>,
    version: Seq<char>,
    versions: Seq<Json>,
    k: int,
)
    requires
        text_of(value_at(value_at(Some(response), "crate"@), "newest_version"@)) == Some(version),
        version != current,
        items_of(value_at(Some(response), "versions"@)) == Some(versions),
        0 <= k <= versions.len(),
        k < versions.len() ==> text_of(value_at(Some(versions[k]), "num"@)) == Some(version),
        forall|j: int|
            0 <= j < k ==> text_of(value_at(Some(#[trigger] versions[j]), "num"@)) != Some(version),
    ensures
        k == versions.len() ==> latest_release(response, current) == Err::<ReleaseView, _>(
            ResponseError::MissingPublishDate,
        ),
        k < versions.len() ==> match text_of(value_at(Some(versions[k]), "created_at"@)) {
            Some(published) => latest_release(response, current) == Ok::<_, ResponseError>(
                ReleaseView::Other { version, published },
            ),
            None => latest_release(response, current) == Err::<ReleaseView, _>(
                ResponseError::MissingPublishDate,
            ),
        },
{
    dates_are_those_of_the_first_listed(versions, version, k);
}

/// Another newest version without a list of versions cannot be decided on.
pub proof fn the_list_is_needed(response: Json, current: Seq<char>, version: Seq<char>)
    requires
        text_of(value_at(value_at(Some(response), "crate"@), "newest_version"@)) == Some(version),
        version != current,
        items_of(value_at(Some(response), "versions"@)) is None,
    ensures
        latest_release(response, current) == Err::<ReleaseView, _>(ResponseError::MissingVersions),
{
}

/// A decision on a version is about that version: it is upgraded to from seven
/// days on, and before that it is too fresh, at its age in days.
pub proof fn decisions_are_about_the_version(
    version: Seq<char>,
    published: Instant,
    now: Instant,
)
    ensures
        elapsed_nanos(now, published) >= 7 * 86_400_000_000_000 ==> upgrade_decision(
            version,
            published,
            now,
        ) == (UpgradeDecisionView::Upgrade { version }),
        elapsed_nanos(now, published) < 7 * 86_400_000_000_000 ==> upgrade_decision(
            version,
            published,
            now,
        ) == (UpgradeDecisionView::TooFresh { version, age_days: elapsed_days(now, published) }),
{
    only_settled_versions(version, published, now);
    assert(nanos_per_day() == 86_400_000_000_000);
}

/// What is printed tells of the version, and of its age where it is too fresh.
pub proof fn messages_tell_of_the_version(
    version: Seq<char>,
    age_days: int,
    current: Seq<char>,
)
    ensures
        contains_text(decision_messages(UpgradeDecisionView::UpToDate, current)[0], current),
        contains_text(
            decision_messages(UpgradeDecisionView::Upgrade { version }, current)[0],
            version,
        ),
        contains_text(
            decision_messages(UpgradeDecisionView::TooFresh { version, age_days }, current)[0],
            version,
        ),
        contains_text(
            decision_messages(UpgradeDecisionView::TooFresh { version, age_days }, current)[0],
            signed_decimal(age_days),
        ),
{
    parts_are_contained("already on the latest version (v"@, current, ")"@);
    parts_are_contained("upgrading escudo to v"@, version, "..."@);
    let line = decision_messages(UpgradeDecisionView::TooFresh { version, age_days }, current)[0];
    let age = signed_decimal(age_days);
    let tail = " day(s) ago — too fresh (cooldown: "@ + decimal(SELF_UPGRADE_COOLDOWN_DAYS as nat)
        + " days)"@;
    parts_are_contained("latest version v"@, version, " was published "@ + age + tail);
    parts_are_contained("latest version v"@ + version + " was published "@, age, tail);
    assert(line =~= "latest version v"@ + version + (" was published "@ + age + tail));
    assert(line =~= "latest version v"@ + version + " was published "@ + age + tail);
}

/// From the answer to the decision: the version that the answer names as newest
/// is upgraded to exactly if it is not the running one, and the date of the
/// first listed version of its number can be read and lies seven days back; the
/// running version is never upgraded to, and nor is any other than the newest.
pub proof fn what_is_upgraded_to(
    response: Json,
    current: Seq<char>,
    now: Instant,
    newest: Seq<char>,
    versions: Seq<Json>,
    k: int,
    published: Seq<char>,
    secs: int,
    nanos: int,
)
    requires
        text_of(value_at(value_at(Some(response), "crate"@), "newest_version"@)) == Some(newest),
        items_of(value_at(Some(response), "versions"@)) == Some(versions),
        0 <= k < versions.len(),
        text_of(value_at(Some(versions[k]), "num"@)) == Some(newest),
        forall|j: int|
            0 <= j < k ==> text_of(value_at(Some(#[trigger] versions[j]), "num"@)) != Some(newest),
        text_of(value_at(Some(versions[k]), "created_at"@)) == Some(published),
        parsed_date(published) == Some((secs, nanos)),
    ensures
        newest == current ==> upgrade_outcome(response, current, now) == Ok::<_, UpgradeErrorView>(
            UpgradeDecisionView::UpToDate,
        ),
        newest != current && elapsed_nanos(now, Instant { secs, nanos }) >= 7 * 86_400_000_000_000
            ==> upgrade_outcome(response, current, now) == Ok::<_, UpgradeErrorView>(
            UpgradeDecisionView::Upgrade { version: newest },
        ),
        newest != current && elapsed_nanos(now, Instant { secs, nanos }) < 7 * 86_400_000_000_000
            ==> upgrade_outcome(response, current, now) == Ok::<_, UpgradeErrorView>(
            UpgradeDecisionView::TooFresh {
                version: newest,
                age_days: elapsed_days(now, Instant { secs, nanos }),
            },
        ),
{
    if newest == current {
        current_means_named_as_newest(response, current);
    } else {
        other_versions_are_told_of(response, current, newest, versions, k);
        decisions_are_about_the_version(newest, Instant { secs, nanos }, now);
    }
}

/// Nothing is decided where the answer lacks something, or a date that matters
/// cannot be read.
pub proof fn lacking_answers_decide_nothing(response: Json, current: Seq<char>, now: Instant)
    ensures
        match latest_release(response, current) {
            Err(e) => upgrade_outcome(response, current, now) == Err::<UpgradeDecisionView, _>(
                UpgradeErrorView::Response(e),
            ),
            Ok(ReleaseView::Other { published, .. }) => parsed_date(published) is None
                ==> upgrade_outcome(response, current, now) == Err::<UpgradeDecisionView, _>(
                UpgradeErrorView::Date,
            ),
            Ok(ReleaseView::Current) => true,
        },
{
}

/// What is printed of a decision is made by one pattern for each of them.
pub proof fn decision_messages_have_one_pattern() -> (p: Seq<Seq<char>>)
    ensures
        p.len() == 8,
        forall|current: Seq<char>|
            #[trigger] decision_messages(UpgradeDecisionView::UpToDate, current)[0] == p[0]
            + current + p[1],
        forall|version: Seq<char>, current: Seq<char>| #[trigger] decision_messages(
            UpgradeDecisionView::Upgrade { version },
            current,
        )[0] == p[2] + version + p[3],
        forall|version: Seq<char>, age_days: int, current: Seq<char>| #[trigger] decision_messages(
            UpgradeDecisionView::TooFresh { version, age_days },
            current,
        )[0] == p[4] + version + p[5] + signed_decimal(age_days) + p[6] + decimal(7) + p[7],
{
    let p = seq![
        "already on the latest version (v"@,
        ")"@,
        "upgrading escudo to v"@,
        "..."@,
        "latest version v"@,
        " was published "@,
        " day(s) ago — too fresh (cooldown: "@,
        " days)"@,
    ];
    assert forall|current: Seq<char>|
        #[trigger] decision_messages(UpgradeDecisionView::UpToDate, current)[0] == p[0]
        + current + p[1] by {
        assert(decision_messages(UpgradeDecisionView::UpToDate, current)[0] =~= p[0] + current
            + p[1]);
    }
    assert forall|version: Seq<char>, current: Seq<char>| #[trigger] decision_messages(
            UpgradeDecisionView::Upgrade { version },
            current,
        )[0] == p[2] + version + p[3] by {
        assert(decision_messages(
            UpgradeDecisionView::Upgrade { version },
            current,
        )[0] =~= p[2] + version + p[3]);
    }
    assert forall|version: Seq<char>, age_days: int, current: Seq<char>|
        #[trigger] decision_messages(
            UpgradeDecisionView::TooFresh { version, age_days },
            current,
        )[0] == p[4] + version + p[5] + signed_decimal(age_days) + p[6] + decimal(7) + p[7] by {
        assert(decision_messages(
            UpgradeDecisionView::TooFresh { version, age_days },
            current,
        )[0] =~= p[4] + version + p[5] + signed_decimal(age_days) + p[6] + decimal(7) + p[7]);
    }
    p
}

/// There is one line for each decision, but two where the latest version is too
/// fresh, the second of which is always the same.
pub proof fn how_many_lines_are_printed(
    version: Seq<char>,
    age_days: int,
    current: Seq<char>,
    other: UpgradeDecisionView,
)
    ensures
        decision_messages(UpgradeDecisionView::UpToDate, current).len() == 1,
        decision_messages(UpgradeDecisionView::Upgrade { version }, current).len() == 1,
        decision_messages(UpgradeDecisionView::TooFresh { version, age_days }, current).len() == 2,
        other is TooFresh ==> decision_messages(other, version)[1] == decision_messages(
            UpgradeDecisionView::TooFresh { version, age_days },
            current,
        )[1],
{
}

} // verus!
