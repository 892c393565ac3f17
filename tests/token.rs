use verishda::token::{
    after_refresh_attempt, after_retry_wait, credentials_from_token_response_now,
    expires_at_from_now, Credentials, ReconnectStep, RefreshFailure, TokenGrant,
};

fn grant(access: &str, refresh: Option<&str>, expires_in_ms: Option<u64>) -> TokenGrant {
    TokenGrant {
        access_token: access.to_string(),
        refresh_token: refresh.map(|r| r.to_string()),
        expires_in_ms,
    }
}

#[test]
fn expiry_keeps_nine_tenths_of_lifetime() {
    assert_eq!(expires_at_from_now(1_000, Some(100_000)), 91_000);
    assert_eq!(expires_at_from_now(0, Some(15)), 13);
}

#[test]
fn expiry_defaults_to_one_minute() {
    assert_eq!(expires_at_from_now(500, None), 500 + 54_000);
}

#[test]
fn expiry_saturates() {
    assert_eq!(expires_at_from_now(u64::MAX - 10, Some(1_000)), u64::MAX);
}

#[test]
fn credentials_prefer_grant_refresh_token() {
    let c = credentials_from_token_response_now(grant("a", Some("r2"), Some(10_000)), Some("r1".to_string()), 0);
    assert_eq!(
        c,
        Some(Credentials { access_token: "a".to_string(), refresh_token: "r2".to_string(), expires_at_ms: 9_000 })
    );
}

#[test]
fn credentials_fall_back_to_given_refresh_token() {
    let c = credentials_from_token_response_now(grant("a", None, None), Some("r1".to_string()), 100);
    assert_eq!(c.unwrap().refresh_token, "r1");
}

#[test]
fn credentials_need_some_refresh_token() {
    assert_eq!(credentials_from_token_response_now(grant("a", None, None), None, 0), None);
}

#[test]
fn reconnect_success_replaces_credentials() {
    let step = after_refresh_attempt(Ok(grant("new", None, Some(1_000))), "keep".to_string(), 10);
    assert_eq!(
        step,
        ReconnectStep::Replace(Credentials {
            access_token: "new".to_string(),
            refresh_token: "keep".to_string(),
            expires_at_ms: 910,
        })
    );
}

#[test]
fn reconnect_invalid_grant_logs_out() {
    let step = after_refresh_attempt(Err(RefreshFailure::InvalidGrant), "r".to_string(), 0);
    assert_eq!(step, ReconnectStep::Logout);
}

#[test]
fn reconnect_other_failure_waits_then_retries() {
    let step = after_refresh_attempt(Err(RefreshFailure::Other), "r".to_string(), 0);
    assert_eq!(step, ReconnectStep::Wait);
    assert_eq!(after_retry_wait(false), ReconnectStep::Retry);
    assert_eq!(after_retry_wait(true), ReconnectStep::Logout);
}
