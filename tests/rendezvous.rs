use std::sync::mpsc;
use verishda::rendezvous::{
    login_request_url, redirect_url, DeliverError, PendingLogins, SubscribeError, UrlError,
};

#[test]
fn duplicate_subscribe_conflicts_and_first_stays_deliverable() {
    let mut p: PendingLogins<u32> = PendingLogins::new();
    assert_eq!(p.subscribe("abc".to_string(), 1), Ok(()));
    assert_eq!(p.subscribe("abc".to_string(), 2), Err(SubscribeError::Conflict));
    assert_eq!(SubscribeError::Conflict.status(), 409);
    assert_eq!(p.deliver("abc"), Ok(1));
}

#[test]
fn unknown_deliver_fails_without_side_effects() {
    let mut p: PendingLogins<u32> = PendingLogins::new();
    p.subscribe("a".to_string(), 7).unwrap();
    assert_eq!(p.deliver("b"), Err(DeliverError::NoPendingLogin));
    assert_eq!(DeliverError::NoPendingLogin.status(), 404);
    assert!(p.is_pending("a"));
    assert_eq!(p.deliver("a"), Ok(7));
}

#[test]
fn second_deliver_loses() {
    let mut p: PendingLogins<u32> = PendingLogins::new();
    p.subscribe("s".to_string(), 3).unwrap();
    assert_eq!(p.deliver("s"), Ok(3));
    assert_eq!(p.deliver("s"), Err(DeliverError::NoPendingLogin));
}

#[test]
fn abandoned_login_leaves_no_entry() {
    let mut p: PendingLogins<u32> = PendingLogins::new();
    p.subscribe("s".to_string(), 3).unwrap();
    assert!(p.abandon("s"));
    assert!(!p.is_pending("s"));
    assert!(!p.abandon("s"));
    assert_eq!(p.subscribe("s".to_string(), 4), Ok(()));
}

#[test]
fn end_to_end_code_reaches_subscriber() {
    let mut p: PendingLogins<mpsc::Sender<String>> = PendingLogins::new();
    let (tx, rx) = mpsc::channel::<String>();
    p.subscribe("abc".to_string(), tx).unwrap();
    let sender = p.deliver("abc").unwrap();
    sender.send("xyz".to_string()).unwrap();
    drop(sender);
    assert_eq!(rx.recv().unwrap(), "xyz");
    assert!(rx.recv().is_err());
}

#[test]
fn rendezvous_urls() {
    assert_eq!(redirect_url("https://api.example"), "https://api.example/api/public/oidc/login-target");
    assert_eq!(
        login_request_url("https://api.example", "abc"),
        Ok("wss://api.example/api/public/oidc/login-requests/abc".to_string())
    );
    assert_eq!(
        login_request_url("http://127.0.0.1:3000", "id"),
        Ok("ws://127.0.0.1:3000/api/public/oidc/login-requests/id".to_string())
    );
    assert_eq!(login_request_url("ftp://x", "id"), Err(UrlError::UnsupportedScheme));
}
