use verishda::session::{
    dated_announcements, post_hook, select_site, tracker_command_for, Action, Announcement,
    AnnouncementKind, Authorization, CallFailure, Command, CoreEvent, DayAnnouncement,
    PersonFilter, SessionCore, SessionState, Settings, TrackerCommand,
};
use verishda::token::{after_refresh_attempt, Credentials, ReconnectStep, TokenGrant};

fn creds(access: &str, refresh: &str, expires_at_ms: u64) -> Credentials {
    Credentials {
        access_token: access.to_string(),
        refresh_token: refresh.to_string(),
        expires_at_ms,
    }
}

fn authenticated() -> SessionCore {
    let mut s = SessionCore::new();
    s.begin_init();
    s.finish_init(true);
    s.process_command(Command::ReplaceCredentials(creds("a1", "r1", 1_000_000)));
    s
}

fn fetches(actions: &[Action]) -> usize {
    actions.iter().filter(|a| matches!(a, Action::FetchPresences { .. })).count()
}

#[test]
fn init_outcomes() {
    let mut s = SessionCore::new();
    assert_eq!(s.state(), SessionState::Uninitialized);
    s.begin_init();
    assert_eq!(s.state(), SessionState::Initializing);
    assert_eq!(s.finish_init(true), vec![Action::Emit(CoreEvent::InitializationFinished)]);
    assert_eq!(s.state(), SessionState::LoggedOut);

    let mut f = SessionCore::new();
    f.begin_init();
    assert_eq!(f.finish_init(false), vec![Action::Emit(CoreEvent::InitializationFailed)]);
    assert_eq!(f.state(), SessionState::Uninitialized);
}

#[test]
fn login_flow_through_code_exchange() {
    let mut s = SessionCore::new();
    s.begin_init();
    s.finish_init(true);
    assert_eq!(
        s.process_command(Command::StartLogin),
        vec![Action::Emit(CoreEvent::LoggingIn), Action::BeginLogin]
    );
    assert_eq!(s.state(), SessionState::LoggingIn);
    // a second start while logging in does nothing
    assert_eq!(s.process_command(Command::StartLogin), vec![]);
    let acts = s.process_command(Command::ExchangeCodeForToken {
        code: "xyz".to_string(),
        verifier: "v".to_string(),
    });
    assert_eq!(acts, vec![Action::ExchangeCode { code: "xyz".to_string(), verifier: "v".to_string() }]);
    let grant = TokenGrant {
        access_token: "acc".to_string(),
        refresh_token: Some("ref".to_string()),
        expires_in_ms: Some(10_000),
    };
    let acts = s.exchange_code_for_tokens(Some(grant), 1_000);
    assert_eq!(acts, vec![Action::FetchSites, Action::Emit(CoreEvent::LoginSuccessful)]);
    assert_eq!(s.state(), SessionState::Authenticated);
    assert_eq!(s.authorization(1_000), Authorization::Bearer("acc".to_string()));
    assert_eq!(s.authorization(10_001), Authorization::Expired("ref".to_string()));
}

#[test]
fn code_exchange_ignored_unless_logging_in() {
    let mut s = authenticated();
    let acts = s.process_command(Command::ExchangeCodeForToken {
        code: "c".to_string(),
        verifier: "v".to_string(),
    });
    assert!(acts.is_empty());
}

#[test]
fn failed_code_exchange_changes_nothing() {
    let mut s = SessionCore::new();
    s.process_command(Command::StartLogin);
    assert!(s.exchange_code_for_tokens(None, 0).is_empty());
    let no_refresh = TokenGrant { access_token: "a".to_string(), refresh_token: None, expires_in_ms: None };
    assert!(s.exchange_code_for_tokens(Some(no_refresh), 0).is_empty());
    assert_eq!(s.state(), SessionState::LoggingIn);
    assert_eq!(s.authorization(0), Authorization::NotLoggedIn);
}

#[test]
fn set_site_twice_refreshes_once() {
    let mut s = authenticated();
    let first = s.process_command(Command::SetSite { site_id: "A".to_string() });
    assert_eq!(fetches(&first), 1);
    assert_eq!(
        first,
        vec![Action::FetchPresences { site_id: "A".to_string(), favorites_only: false, term: None }]
    );
    let second = s.process_command(Command::SetSite { site_id: "A".to_string() });
    assert_eq!(fetches(&second), 0);
    assert!(second.is_empty());
}

#[test]
fn empty_site_id_clears_selection() {
    let mut s = authenticated();
    s.process_command(Command::SetSite { site_id: "A".to_string() });
    assert!(s.process_command(Command::SetSite { site_id: String::new() }).is_empty());
    assert!(s.process_command(Command::RefreshPresences) == vec![Action::PostHello]);
}

#[test]
fn logout_refuses_later_backend_calls() {
    let mut s = authenticated();
    assert_eq!(s.process_command(Command::Logout), vec![Action::Emit(CoreEvent::LoggedOut)]);
    assert_eq!(s.state(), SessionState::LoggedOut);
    assert_eq!(s.authorization(0), Authorization::NotLoggedIn);
    assert!(s.process_command(Command::RefreshPresences).is_empty());
    assert!(s.refresh_sites().is_empty());
}

#[test]
fn filter_drives_presence_query() {
    let mut s = authenticated();
    s.process_command(Command::SetSite { site_id: "S".to_string() });
    let acts = s.process_command(Command::SetPersonFilter(PersonFilter {
        favorites_only: true,
        term: Some("ann".to_string()),
    }));
    assert_eq!(
        acts,
        vec![Action::FetchPresences {
            site_id: "S".to_string(),
            favorites_only: true,
            term: Some("ann".to_string()),
        }]
    );
    let acts = s.process_command(Command::SetPersonFilter(PersonFilter {
        favorites_only: false,
        term: Some(String::new()),
    }));
    assert_eq!(
        acts,
        vec![Action::FetchPresences { site_id: "S".to_string(), favorites_only: false, term: None }]
    );
}

#[test]
fn refresh_presences_says_hello_first() {
    let mut s = authenticated();
    s.process_command(Command::SetSite { site_id: "S".to_string() });
    assert_eq!(
        s.process_command(Command::RefreshPresences),
        vec![
            Action::PostHello,
            Action::FetchPresences { site_id: "S".to_string(), favorites_only: false, term: None },
        ]
    );
}

#[test]
fn favorite_change_then_refresh() {
    let mut s = authenticated();
    s.process_command(Command::SetSite { site_id: "S".to_string() });
    let acts = s.process_command(Command::ChangeFavorite { user_id: "u".to_string(), favorite: false });
    assert_eq!(acts[0], Action::DeleteFavorite { user_id: "u".to_string() });
    assert_eq!(fetches(&acts), 1);
    let acts = s.process_command(Command::ChangeFavorite { user_id: "u".to_string(), favorite: true });
    assert_eq!(acts[0], Action::PutFavorite { user_id: "u".to_string() });
}

#[test]
fn announcements_map_offsets_to_days() {
    let list = vec![
        Announcement::PresenceAnnounced,
        Announcement::NotAnnounced,
        Announcement::WeeklyPresenceAnnounced,
    ];
    assert_eq!(
        dated_announcements(&list),
        vec![
            DayAnnouncement { days_from_now: 0, kind: AnnouncementKind::SingularAnnouncement },
            DayAnnouncement { days_from_now: 2, kind: AnnouncementKind::RecurringAnnouncement },
        ]
    );
    let mut s = authenticated();
    let acts = s.process_command(Command::PublishAnnouncements { site_id: "S".to_string(), announcements: list });
    assert_eq!(acts.len(), 1);
    assert!(matches!(&acts[0], Action::PutAnnouncements { site_id, announcements } if site_id == "S" && announcements.len() == 2));
}

#[test]
fn backend_commands_need_authentication() {
    let mut s = SessionCore::new();
    assert!(s.process_command(Command::PublishAnnouncements {
        site_id: "S".to_string(),
        announcements: vec![Announcement::PresenceAnnounced],
    })
    .is_empty());
    assert!(s.process_command(Command::ChangeFavorite { user_id: "u".to_string(), favorite: true }).is_empty());
}

#[test]
fn cancel_settings_and_quit() {
    let mut s = SessionCore::new();
    assert_eq!(s.process_command(Command::CancelCurrentOperation), vec![Action::SignalCancel]);
    assert_eq!(
        s.process_command(Command::ApplySettings(Settings::new(true))),
        vec![Action::StoreSettings(Settings::new(true))]
    );
    assert_eq!(
        s.process_command(Command::Quit),
        vec![Action::Emit(CoreEvent::Terminating), Action::Stop]
    );
}

#[test]
fn sites_fetched_keeps_or_picks_selection() {
    let mut s = authenticated();
    let ids = vec!["x".to_string(), "y".to_string()];
    let acts = s.sites_fetched(&ids);
    assert_eq!(
        acts,
        vec![
            Action::ReplaceGeofences,
            Action::Emit(CoreEvent::SitesUpdated { selected_index: Some(0) }),
            Action::FetchPresences { site_id: "x".to_string(), favorites_only: false, term: None },
        ]
    );
    s.process_command(Command::SetSite { site_id: "y".to_string() });
    let acts = s.sites_fetched(&ids);
    assert_eq!(acts[1], Action::Emit(CoreEvent::SitesUpdated { selected_index: Some(1) }));
    s.process_command(Command::SetSite { site_id: "gone".to_string() });
    let acts = s.sites_fetched(&ids);
    assert_eq!(acts, vec![Action::ReplaceGeofences, Action::Emit(CoreEvent::SitesUpdated { selected_index: None })]);
}

#[test]
fn select_site_cases() {
    let ids = vec!["a".to_string(), "b".to_string(), "b".to_string()];
    assert_eq!(select_site(&None, &ids), Some(0));
    assert_eq!(select_site(&Some("b".to_string()), &ids), Some(1));
    assert_eq!(select_site(&Some("c".to_string()), &ids), None);
    assert_eq!(select_site(&None, &vec![]), None);
}

#[test]
fn lazy_refresh_outcomes() {
    let mut s = authenticated();
    let ok = TokenGrant { access_token: "a2".to_string(), refresh_token: Some("r2".to_string()), expires_in_ms: Some(1_000) };
    assert!(s.run_token_refresh(Ok(ok), 2_000_000).is_empty());
    assert_eq!(s.authorization(2_000_000), Authorization::Bearer("a2".to_string()));
    assert_eq!(s.authorization(2_000_901), Authorization::Expired("r2".to_string()));
    let keep = TokenGrant { access_token: "a3".to_string(), refresh_token: None, expires_in_ms: Some(1_000) };
    assert!(s.run_token_refresh(Ok(keep), 3_000_000).is_empty());
    assert_eq!(s.authorization(3_000_901), Authorization::Expired("r2".to_string()));
    let acts = s.run_token_refresh(Err(verishda::token::RefreshFailure::InvalidGrant), 0);
    assert_eq!(acts, vec![Action::Emit(CoreEvent::LoggedOut)]);
    assert_eq!(s.state(), SessionState::LoggedOut);
    assert_eq!(s.authorization(0), Authorization::NotLoggedIn);
}

#[test]
fn post_hook_routes_failures() {
    assert_eq!(post_hook(CallFailure::Unauthorized), Some(Command::Logout));
    assert_eq!(post_hook(CallFailure::Transport), Some(Command::StartTokenRefresh));
    assert_eq!(post_hook(CallFailure::Other), None);
}

#[test]
fn reconnect_after_transport_failure_ends_authenticated() {
    let mut s = authenticated();
    let mut events = Vec::new();
    let cmd = post_hook(CallFailure::Transport).unwrap();
    let acts = s.process_command(cmd);
    assert_eq!(
        acts,
        vec![Action::Emit(CoreEvent::LoggingIn), Action::StartReconnect { refresh_token: "r1".to_string() }]
    );
    assert_eq!(s.state(), SessionState::Reauthenticating);
    events.extend(acts);
    // a second transport failure while the loop runs starts nothing
    assert!(s.process_command(Command::StartTokenRefresh).is_empty());
    let grant = TokenGrant { access_token: "a2".to_string(), refresh_token: None, expires_in_ms: Some(60_000) };
    let step = after_refresh_attempt(Ok(grant), "r1".to_string(), 5_000);
    let replaced = match step {
        ReconnectStep::Replace(c) => c,
        other => panic!("unexpected step {other:?}"),
    };
    assert_eq!(replaced, creds("a2", "r1", 5_000 + 54_000));
    events.extend(s.process_command(Command::ReplaceCredentials(replaced)));
    assert_eq!(s.state(), SessionState::Authenticated);
    assert_eq!(s.authorization(5_000), Authorization::Bearer("a2".to_string()));
    assert!(!events.contains(&Action::Emit(CoreEvent::LoggedOut)));
}

#[test]
fn tracker_follows_session_events() {
    assert_eq!(tracker_command_for(&CoreEvent::LoginSuccessful), Some(TrackerCommand::Start));
    assert_eq!(tracker_command_for(&CoreEvent::LoggingIn), Some(TrackerCommand::Stop));
    assert_eq!(tracker_command_for(&CoreEvent::Terminating), Some(TrackerCommand::Stop));
    assert_eq!(tracker_command_for(&CoreEvent::LoggedOut), None);
}

#[test]
fn presences_fetched_announces_change() {
    let s = authenticated();
    assert_eq!(s.presences_fetched(), vec![Action::Emit(CoreEvent::PresencesChanged)]);
}

#[test]
fn login_wait_outcome_becomes_command() {
    assert_eq!(
        verishda::session::command_after_login_wait(Some("xyz".to_string()), "v".to_string()),
        Command::ExchangeCodeForToken { code: "xyz".to_string(), verifier: "v".to_string() }
    );
    assert_eq!(verishda::session::command_after_login_wait(None, "v".to_string()), Command::Logout);
}
