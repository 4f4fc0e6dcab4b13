use escudo::error::FreshnessError;
use escudo::http::{user_agent, versions_url, FetchStep, RetryState, StatusCode, MAX_RETRIES};

fn status(code: u16) -> StatusCode {
    StatusCode::new(code).unwrap()
}

#[test]
fn status_codes_have_three_digits() {
    for code in [0, 99, 1000, u16::MAX] {
        assert!(StatusCode::new(code).is_none());
        assert!(reqwest::StatusCode::from_u16(code).is_err());
    }
    for code in 100..=999 {
        assert_eq!(status(code).as_u16(), code);
        let theirs = reqwest::StatusCode::from_u16(code).unwrap();
        assert_eq!(status(code).to_string(), theirs.to_string());
        assert!(status(code).to_string().starts_with(&format!("{code} ")));
    }
    assert_eq!(status(404).to_string(), "404 Not Found");
}

#[test]
fn steps_follow_the_kind_of_status() {
    for code in 100..=999 {
        let theirs = reqwest::StatusCode::from_u16(code).unwrap();
        let step = RetryState::start().after_response("serde", status(code));
        if theirs.is_success() {
            assert!(matches!(step, FetchStep::Read));
        } else if code == 429 || theirs.is_server_error() {
            assert!(matches!(step, FetchStep::Retry { wait_secs: 1, .. }));
        } else {
            match step {
                FetchStep::Fail(FreshnessError::HttpStatus { crate_name, status }) => {
                    assert_eq!(crate_name, "serde");
                    assert_eq!(status.as_u16(), code);
                }
                _ => panic!("expected a failure"),
            }
        }
    }
}

#[test]
fn waits_double_until_retries_run_out() {
    let mut state = RetryState::start();
    let mut waits = Vec::new();
    loop {
        match state.after_response("serde", status(503)) {
            FetchStep::Retry { wait_secs, next } => {
                waits.push(wait_secs);
                state = next;
            }
            FetchStep::Fail(error) => {
                assert_eq!(
                    error.to_string(),
                    "crates.io returned HTTP 503 Service Unavailable for crate `serde`"
                );
                break;
            }
            FetchStep::Read => panic!("expected a failure"),
        }
    }
    assert_eq!(waits, vec![1, 2, 4, 8, 16]);
    assert_eq!(waits.len(), MAX_RETRIES as usize);
}

#[test]
fn a_late_success_is_read() {
    let mut state = RetryState::start();
    for code in [429, 500] {
        state = match state.after_response("serde", status(code)) {
            FetchStep::Retry { next, .. } => next,
            _ => panic!("expected a retry"),
        };
    }
    assert!(matches!(state.after_response("serde", status(200)), FetchStep::Read));
    assert_eq!(
        state.retry_message("serde", status(429)),
        "HTTP 429 on `serde`, retrying in 4s (attempt 3/5)"
    );
}

#[test]
fn addresses() {
    assert_eq!(versions_url("serde"), "https://crates.io/api/v1/crates/serde/versions");
    assert_ne!(versions_url("serde"), versions_url("serde_json"));
    assert_eq!(user_agent("0.1.3"), "escudo/0.1.3");
}
