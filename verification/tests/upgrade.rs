use escudo::time::Timestamp;
use escudo::upgrade::{
    check_upgrade, decide_upgrade, find_release, Json, Release, ResponseError, UpgradeDecision,
    UpgradeError,
};

const DAY: i64 = 86_400;

fn at(secs: i64) -> Timestamp {
    Timestamp::new(secs, 0).unwrap()
}

fn text(t: &str) -> Json {
    Json::Text(t.to_string())
}

fn object(members: Vec<(&str, Json)>) -> Json {
    Json::Object(members.into_iter().map(|(key, value)| (key.to_string(), value)).collect())
}

fn version(num: &str, created_at: &str) -> Json {
    object(vec![("id", Json::Other), ("num", text(num)), ("created_at", text(created_at))])
}

fn response(newest: &str, versions: Vec<Json>) -> Json {
    object(vec![
        ("versions", Json::List(versions)),
        ("crate", object(vec![("id", text("escudo")), ("newest_version", text(newest))])),
    ])
}

#[test]
fn the_current_version_needs_no_upgrade() {
    let answer = response("0.1.3", vec![]);
    let decision = check_upgrade(&answer, "0.1.3", &at(0)).unwrap();
    assert!(matches!(decision, UpgradeDecision::UpToDate));
    assert_eq!(decision.messages("0.1.3"), vec!["already on the latest version (v0.1.3)"]);
}

#[test]
fn a_settled_version_is_upgraded_to() {
    let answer = response(
        "0.2.0",
        vec![
            version("0.1.3", "2024-01-01T00:00:00Z"),
            version("0.2.0", "2024-05-01T10:00:00Z"),
            version("0.2.0", "2030-05-01T10:00:00Z"),
        ],
    );
    let now = at(1_714_557_600 + 7 * DAY);
    let decision = check_upgrade(&answer, "0.1.3", &now).unwrap();
    assert!(matches!(&decision, UpgradeDecision::Upgrade { version } if version == "0.2.0"));
    assert_eq!(decision.messages("0.1.3"), vec!["upgrading escudo to v0.2.0..."]);
}

#[test]
fn a_fresh_version_is_not_upgraded_to() {
    let answer = response("0.2.0", vec![version("0.2.0", "2024-05-01T10:00:00Z")]);
    let now = at(1_714_557_600 + 7 * DAY - 1);
    let decision = check_upgrade(&answer, "0.1.3", &now).unwrap();
    assert!(matches!(decision, UpgradeDecision::TooFresh { age_days: 6, .. }));
    assert_eq!(
        decision.messages("0.1.3"),
        vec![
            "latest version v0.2.0 was published 6 day(s) ago — too fresh (cooldown: 7 days)",
            "escudo applies its own freshness check to upgrades. try again later.",
        ]
    );
}

#[test]
fn a_date_in_the_future_is_too_fresh() {
    let decision = decide_upgrade("0.2.0".to_string(), &at(30 * DAY), &at(0));
    assert!(matches!(decision, UpgradeDecision::TooFresh { age_days: -30, .. }));
}

#[test]
fn answers_that_lack_something() {
    let cases = vec![
        (Json::Other, ResponseError::MissingNewestVersion),
        (object(vec![("crate", text("x"))]), ResponseError::MissingNewestVersion),
        (
            object(vec![("crate", object(vec![("newest_version", Json::Other)]))]),
            ResponseError::MissingNewestVersion,
        ),
        (
            object(vec![("crate", object(vec![("newest_version", text("0.2.0"))]))]),
            ResponseError::MissingVersions,
        ),
        (
            object(vec![
                ("crate", object(vec![("newest_version", text("0.2.0"))])),
                ("versions", object(vec![])),
            ]),
            ResponseError::MissingVersions,
        ),
        (response("0.2.0", vec![]), ResponseError::MissingPublishDate),
        (
            response("0.2.0", vec![version("0.1.0", "2024-05-01T10:00:00Z"), text("0.2.0")]),
            ResponseError::MissingPublishDate,
        ),
        (
            response(
                "0.2.0",
                vec![
                    object(vec![("num", text("0.2.0"))]),
                    version("0.2.0", "2024-05-01T10:00:00Z"),
                ],
            ),
            ResponseError::MissingPublishDate,
        ),
    ];
    for (answer, expected) in cases {
        match check_upgrade(&answer, "0.1.3", &at(0)) {
            Err(UpgradeError::Response(error)) => assert_eq!(error, expected),
            other => panic!("expected {:?}, got {:?}", expected, other),
        }
    }
}

#[test]
fn messages_of_lacking_answers() {
    assert_eq!(
        ResponseError::MissingNewestVersion.to_string(),
        "missing newest_version in crates.io response"
    );
    assert_eq!(
        ResponseError::MissingVersions.to_string(),
        "missing versions array in crates.io response"
    );
    assert_eq!(
        ResponseError::MissingPublishDate.to_string(),
        "could not find publish date for latest version"
    );
}

#[test]
fn a_date_that_cannot_be_read() {
    let answer = response("0.2.0", vec![version("0.2.0", "last week")]);
    assert!(matches!(check_upgrade(&answer, "0.1.3", &at(0)), Err(UpgradeError::Date(_))));
}

#[test]
fn the_release_that_is_told() {
    let answer = response("0.2.0", vec![version("0.2.0", "2024-05-01T10:00:00Z")]);
    match find_release(&answer, "0.1.3") {
        Ok(Release::Other { version, published }) => {
            assert_eq!(version, "0.2.0");
            assert_eq!(published, "2024-05-01T10:00:00Z");
        }
        other => panic!("expected another release, got {:?}", other),
    }
    assert!(matches!(find_release(&answer, "0.2.0"), Ok(Release::Current)));
}
