//! The session actor's decisions. A runtime owns one `SessionCore`, feeds it
//! commands one at a time (and the results of the calls it asked for), and
//! performs the actions it returns: emitting events, calling the backend or the
//! identity provider, starting the reconnect loop.

use vstd::prelude::*;
use crate::token::{
    Credentials,
    TokenGrant,
    RefreshFailure,
    ReconnectStep,
    spec_after_refresh_attempt,
    spec_credentials_from_grant,
    credentials_from_token_response_now,
};

verus! {

/// Where the session stands.
#[derive(Clone, Copy, Debug, PartialEq, Eq, Structural)]
pub enum SessionState {
    Uninitialized,
    Initializing,
    LoggedOut,
    LoggingIn,
    Authenticated,
    Reauthenticating,
}

/// A user's announcement for one day, as the calendar shows it.
#[derive(Clone, Copy, Debug, PartialEq, Eq)]
pub enum Announcement {
    NotAnnounced,
    PresenceAnnounced,
    WeeklyPresenceAnnounced,
}

/// How an announcement is stored by the backend.
#[derive(Clone, Copy, Debug, PartialEq, Eq)]
pub enum AnnouncementKind {
    SingularAnnouncement,
    RecurringAnnouncement,
}

/// An announcement for the day `days_from_now` days after today.
#[derive(Clone, Copy, Debug, PartialEq, Eq)]
pub struct DayAnnouncement {
    pub days_from_now: u64,
    pub kind: AnnouncementKind,
}

/// Which persons a presence query lists.
#[derive(Clone, Debug, PartialEq, Eq)]
pub struct PersonFilter {
    pub favorites_only: bool,
    pub term: Option<String>,
}

impl Default for PersonFilter {
    fn default() -> (r: PersonFilter)
        ensures
            !r.favorites_only,
            r.term is None,
    {
        PersonFilter { favorites_only: false, term: None }
    }
}

/// User settings that the runtime stores in its configuration.
#[derive(Clone, Copy, Debug, PartialEq, Eq)]
pub struct Settings {
    pub run_on_startup: bool,
}

impl Settings {
    pub fn new(run_on_startup: bool) -> (r: Settings)
        ensures
            r.run_on_startup == run_on_startup,
    {
        Settings { run_on_startup }
    }

    pub fn run_on_startup(&self) -> (r: bool)
        ensures
            r == self.run_on_startup,
    {
        self.run_on_startup
    }
}

/// Events that the session publishes to its listeners. The runtime attaches the
/// fetched sites and presences to the data events.
#[derive(Clone, Copy, Debug, PartialEq, Eq)]
pub enum CoreEvent {
    InitializationFinished,
    InitializationFailed,
    LoggingIn,
    LoginSuccessful,
    LoggedOut,
    SitesUpdated { selected_index: Option<usize> },
    PresencesChanged,
    Terminating,
}

/// Requests to the session, processed strictly in order.
#[derive(Clone, Debug, PartialEq, Eq)]
pub enum Command {
    StartLogin,
    CancelCurrentOperation,
    ExchangeCodeForToken { code: String, verifier: String },
    StartTokenRefresh,
    ReplaceCredentials(Credentials),
    Logout,
    RefreshPresences,
    PublishAnnouncements { site_id: String, announcements: Vec<Announcement> },
    ChangeFavorite { user_id: String, favorite: bool },
    SetSite { site_id: String },
    SetPersonFilter(PersonFilter),
    ApplySettings(Settings),
    Quit,
}

/// Work that the runtime performs for the session, in the order given.
#[derive(Clone, Debug, PartialEq, Eq)]
pub enum Action {
    /// Publish an event to every listener.
    Emit(CoreEvent),
    /// Create a PKCE pair and a correlation ID, subscribe to the login rendezvous
    /// and open the provider's authorization page in the browser.
    BeginLogin,
    /// Fire the shared cancellation signal.
    SignalCancel,
    /// Exchange an authorization code at the provider, then report the result.
    ExchangeCode { code: String, verifier: String },
    /// Start the background reconnect loop with this refresh token.
    StartReconnect { refresh_token: String },
    /// Fetch the list of sites, then report the site IDs.
    FetchSites,
    /// Replace the geofences with circles around the sites just fetched.
    ReplaceGeofences,
    /// Say hello at every site whose geofence is currently occupied.
    PostHello,
    /// Query the presences at a site, then report them.
    FetchPresences { site_id: String, favorites_only: bool, term: Option<String> },
    PutFavorite { user_id: String },
    DeleteFavorite { user_id: String },
    PutAnnouncements { site_id: String, announcements: Vec<DayAnnouncement> },
    StoreSettings(Settings),
    /// End the command loop and the background tasks.
    Stop,
}

/// How the session can authorize a backend call right now.
#[derive(Clone, Debug, PartialEq, Eq)]
pub enum Authorization {
    /// Attach this access token.
    Bearer(String),
    /// The access token has expired: refresh it with this refresh token first.
    Expired(String),
    /// There are no credentials.
    NotLoggedIn,
}

/// How a backend call failed.
#[derive(Clone, Copy, Debug, PartialEq, Eq)]
pub enum CallFailure {
    /// The backend answered 401.
    Unauthorized,
    /// The connection could not be made.
    Transport,
    /// Any other failure.
    Other,
}

/// What the geofence tracker is told when the session publishes an event.
#[derive(Clone, Copy, Debug, PartialEq, Eq)]
pub enum TrackerCommand {
    Start,
    Stop,
}

/// The session's owned state.
pub struct SessionCore {
    state: SessionState,
    credentials: Option<Credentials>,
    site: Option<String>,
    filter: PersonFilter,
    reconnecting: bool,
}

/// What a `SessionCore` holds, for contracts.
pub struct SessionModel {
    pub state: SessionState,
    pub credentials: Option<Credentials>,
    pub site: Option<String>,
    pub filter: PersonFilter,
    /// A reconnect loop has been started and has not reported back yet.
    pub reconnecting: bool,
}

impl View for SessionCore {
    type V = SessionModel;

    closed spec fn view(&self) -> SessionModel {
        SessionModel {
            state: self.state,
            credentials: self.credentials,
            site: self.site,
            filter: self.filter,
            reconnecting: self.reconnecting,
        }
    }
}

/// An authenticated or reauthenticating session holds credentials.
pub open spec fn well_formed(m: SessionModel) -> bool {
    (m.state == SessionState::Authenticated || m.state == SessionState::Reauthenticating)
        ==> m.credentials is Some
}

pub open spec fn opt_view(o: Option<String>) -> Option<Seq<char>> {
    match o {
        Some(s) => Some(s@),
        None => None,
    }
}

/// The search term sent with a presence query: an empty term is no term.
pub open spec fn spec_effective_term(t: Option<String>) -> Option<String> {
    match t {
        Some(s) => if s@.len() > 0 {
            Some(s)
        } else {
            None
        },
        None => None,
    }
}

/// The presence query that refreshing presences issues: one for the selected
/// site while authenticated, none otherwise.
pub open spec fn spec_presence_refresh(m: SessionModel) -> Seq<Action> {
    if m.state == SessionState::Authenticated && m.site is Some {
        seq![
            Action::FetchPresences {
                site_id: m.site->0,
                favorites_only: m.filter.favorites_only,
                term: spec_effective_term(m.filter.term),
            },
        ]
    } else {
        seq![]
    }
}

/// The logged-out session.
pub open spec fn spec_logged_out(m: SessionModel) -> SessionModel {
    SessionModel { state: SessionState::LoggedOut, credentials: None, reconnecting: false, ..m }
}

/// The session authenticated with `c`.
pub open spec fn spec_authenticated(m: SessionModel, c: Credentials) -> SessionModel {
    SessionModel {
        state: SessionState::Authenticated,
        credentials: Some(c),
        reconnecting: false,
        ..m
    }
}

/// The site that a `SetSite` with `site_id` selects: none for an empty ID.
pub open spec fn spec_site_of(site_id: String) -> Option<String> {
    if site_id@.len() == 0 {
        None
    } else {
        Some(site_id)
    }
}

/// The announcements to publish for a calendar: the `i`th entry stands for the day
/// `i` days from today; days without announcement are left out.
pub open spec fn spec_dated_announcements(list: Seq<Announcement>) -> Seq<DayAnnouncement>
    decreases list.len(),
{
    if list.len() == 0 {
        seq![]
    } else {
        let before = spec_dated_announcements(list.drop_last());
        let day = (list.len() - 1) as u64;
        match list.last() {
            Announcement::NotAnnounced => before,
            Announcement::PresenceAnnounced => before.push(
                DayAnnouncement { days_from_now: day, kind: AnnouncementKind::SingularAnnouncement },
            ),
            Announcement::WeeklyPresenceAnnounced => before.push(
                DayAnnouncement { days_from_now: day, kind: AnnouncementKind::RecurringAnnouncement },
            ),
        }
    }
}

/// Maps a calendar of announcements, one per day starting today, to the dated
/// announcements that the backend stores.
pub fn dated_announcements(list: &Vec<Announcement>) -> (r: Vec<DayAnnouncement>)
    ensures
        r@ == spec_dated_announcements(list@),
{
    let mut out: Vec<DayAnnouncement> = Vec::new();
    let mut i: usize = 0;
    while i < list.len()
        invariant
            i <= list@.len(),
            out@ == spec_dated_announcements(list@.take(i as int)),
        decreases list@.len() - i,
    {
        assert(list@.take(i as int + 1).drop_last() =~= list@.take(i as int));
        let day: u64 = i as u64;
        match list[i] {
            Announcement::NotAnnounced => {},
            Announcement::PresenceAnnounced => {
                out.push(
                    DayAnnouncement {
                        days_from_now: day,
                        kind: AnnouncementKind::SingularAnnouncement,
                    },
                );
            },
            Announcement::WeeklyPresenceAnnounced => {
                out.push(
                    DayAnnouncement {
                        days_from_now: day,
                        kind: AnnouncementKind::RecurringAnnouncement,
                    },
                );
            },
        }
        i = i + 1;
    }
    assert(list@.take(list@.len() as int) =~= list@);
    out
}

/// The search term to send for `term`: none where it is absent or empty.
pub fn effective_term(term: &Option<String>) -> (r: Option<String>)
    ensures
        r == spec_effective_term(*term),
{
    match term {
        Some(s) => {
            if s.as_str().is_empty() {
                None
            } else {
                Some(s.clone())
            }
        },
        None => None,
    }
}

/// Whether two optional site IDs name the same site.
pub fn same_site(a: &Option<String>, b: &Option<String>) -> (r: bool)
    ensures
        r == (opt_view(*a) == opt_view(*b)),
{
    match (a, b) {
        (Some(x), Some(y)) => x.eq(y),
        (None, None) => true,
        _ => false,
    }
}

/// The command that a failed backend call gives rise to.
pub open spec fn spec_post_hook(failure: CallFailure) -> Option<Command> {
    match failure {
        CallFailure::Unauthorized => Some(Command::Logout),
        CallFailure::Transport => Some(Command::StartTokenRefresh),
        CallFailure::Other => None,
    }
}

/// Turns a failed backend call into the command that recovers from it: a 401
/// logs the session out; a connection failure starts a token refresh, as the
/// network rather than the token may be at fault; anything else needs nothing.
pub fn post_hook(failure: CallFailure) -> (r: Option<Command>)
    ensures
        r == spec_post_hook(failure),
{
    match failure {
        CallFailure::Unauthorized => Some(Command::Logout),
        CallFailure::Transport => Some(Command::StartTokenRefresh),
        CallFailure::Other => None,
    }
}

/// The command that ends a wait for the login rendezvous: a received code is
/// exchanged with the login's PKCE verifier; a cancelled wait, a closed stream or
/// any other failure logs out.
pub fn command_after_login_wait(code: Option<String>, verifier: String) -> (r: Command)
    ensures
        r == (match code {
            Some(c) => Command::ExchangeCodeForToken { code: c, verifier },
            None => Command::Logout,
        }),
{
    match code {
        Some(c) => Command::ExchangeCodeForToken { code: c, verifier },
        None => Command::Logout,
    }
}

/// Location polling runs while the session is authenticated: a successful login
/// starts the tracker, logging in again or terminating stops it.
pub fn tracker_command_for(event: &CoreEvent) -> (r: Option<TrackerCommand>)
    ensures
        r == (match *event {
            CoreEvent::LoginSuccessful => Some(TrackerCommand::Start),
            CoreEvent::LoggingIn | CoreEvent::Terminating => Some(TrackerCommand::Stop),
            _ => None::<TrackerCommand>,
        }),
{
    match event {
        CoreEvent::LoginSuccessful => Some(TrackerCommand::Start),
        CoreEvent::LoggingIn | CoreEvent::Terminating => Some(TrackerCommand::Stop),
        _ => None,
    }
}

/// Refreshing presences on request or on the timer: say hello at the occupied
/// sites, then query the presences at the selected one; nothing unless authenticated.
pub open spec fn spec_presence_update(m: SessionModel) -> Seq<Action> {
    if m.state == SessionState::Authenticated {
        seq![Action::PostHello] + spec_presence_refresh(m)
    } else {
        seq![]
    }
}

/// Refreshing sites: one fetch while authenticated.
pub open spec fn spec_site_refresh(m: SessionModel) -> Seq<Action> {
    if m.state == SessionState::Authenticated {
        seq![Action::FetchSites]
    } else {
        seq![]
    }
}

/// How a backend call is authorized in session `m` at instant `now`: a token that
/// has expired (strictly before `now`) is refreshed first.
pub open spec fn spec_authorization(m: SessionModel, now: u64) -> Authorization {
    match m.credentials {
        None => Authorization::NotLoggedIn,
        Some(c) => if now > c.expires_at_ms {
            Authorization::Expired(c.refresh_token)
        } else {
            Authorization::Bearer(c.access_token)
        },
    }
}

/// The first position of `t` among the views of `ids`.
pub open spec fn first_index_of(ids: Seq<String>, t: Seq<char>) -> Option<int>
    decreases ids.len(),
{
    if ids.len() == 0 {
        None
    } else {
        match first_index_of(ids.drop_last(), t) {
            Some(i) => Some(i),
            None => if ids.last()@ == t {
                Some(ids.len() - 1)
            } else {
                None
            },
        }
    }
}

/// The site selected after the list of sites `ids` arrives: the current selection
/// if it is still listed, the first site if there was no selection, else none.
pub open spec fn spec_select_site(current: Option<String>, ids: Seq<String>) -> Option<int> {
    match current {
        Some(s) => first_index_of(ids, s@),
        None => if ids.len() > 0 {
            Some(0)
        } else {
            None
        },
    }
}

pub open spec fn opt_usize(o: Option<int>) -> Option<usize> {
    match o {
        Some(i) => Some(i as usize),
        None => None,
    }
}

/// One command's effect: `m2` is the session after processing `cmd` in session
/// `m`, and `acts` the actions it asks for.
pub open spec fn step(m: SessionModel, cmd: Command, m2: SessionModel, acts: Seq<Action>) -> bool {
    match cmd {
        Command::StartLogin => if m.state != SessionState::LoggingIn {
            &&& m2 == SessionModel { state: SessionState::LoggingIn, ..m }
            &&& acts == seq![Action::Emit(CoreEvent::LoggingIn), Action::BeginLogin]
        } else {
            m2 == m && acts == Seq::<Action>::empty()
        },
        Command::CancelCurrentOperation => m2 == m && acts == seq![Action::SignalCancel],
        Command::ExchangeCodeForToken { code, verifier } => {
            &&& m2 == m
            &&& acts == if m.state == SessionState::LoggingIn {
                seq![Action::ExchangeCode { code, verifier }]
            } else {
                Seq::<Action>::empty()
            }
        },
        Command::StartTokenRefresh => if m.credentials is Some && !m.reconnecting {
            &&& m2 == SessionModel {
                state: SessionState::Reauthenticating,
                reconnecting: true,
                ..m
            }
            &&& acts == seq![
                Action::Emit(CoreEvent::LoggingIn),
                Action::StartReconnect { refresh_token: m.credentials->0.refresh_token },
            ]
        } else {
            m2 == m && acts == Seq::<Action>::empty()
        },
        Command::ReplaceCredentials(c) => {
            &&& m2 == spec_authenticated(m, c)
            &&& acts == seq![Action::Emit(CoreEvent::LoginSuccessful)]
        },
        Command::Logout => m2 == spec_logged_out(m) && acts == seq![
            Action::Emit(CoreEvent::LoggedOut),
        ],
        Command::RefreshPresences => m2 == m && acts == spec_presence_update(m),
        Command::PublishAnnouncements { site_id, announcements } => {
            &&& m2 == m
            &&& if m.state == SessionState::Authenticated {
                &&& acts.len() == 1
                &&& match acts[0] {
                    Action::PutAnnouncements { site_id: s, announcements: a } => {
                        s == site_id && a@ == spec_dated_announcements(announcements@)
                    },
                    _ => false,
                }
            } else {
                acts == Seq::<Action>::empty()
            }
        },
        Command::ChangeFavorite { user_id, favorite } => {
            &&& m2 == m
            &&& acts == if m.state == SessionState::Authenticated {
                seq![
                    if favorite {
                        Action::PutFavorite { user_id }
                    } else {
                        Action::DeleteFavorite { user_id }
                    },
                ] + spec_presence_refresh(m)
            } else {
                Seq::<Action>::empty()
            }
        },
        Command::SetSite { site_id } => {
            &&& m2 == SessionModel { site: spec_site_of(site_id), ..m }
            &&& acts == if opt_view(m.site) != opt_view(spec_site_of(site_id)) {
                spec_presence_refresh(m2)
            } else {
                Seq::<Action>::empty()
            }
        },
        Command::SetPersonFilter(f) => {
            &&& m2 == SessionModel { filter: f, ..m }
            &&& acts == spec_presence_refresh(m2)
        },
        Command::ApplySettings(settings) => m2 == m && acts == seq![
            Action::StoreSettings(settings),
        ],
        Command::Quit => m2 == m && acts == seq![
            Action::Emit(CoreEvent::Terminating),
            Action::Stop,
        ],
    }
}

/// Finds the site to select among `site_ids` after a refresh of the site list.
pub fn select_site(current: &Option<String>, site_ids: &Vec<String>) -> (r: Option<usize>)
    ensures
        r == opt_usize(spec_select_site(*current, site_ids@)),
{
    match current {
        None => {
            if site_ids.len() > 0 {
                Some(0)
            } else {
                None
            }
        },
        Some(t) => {
            let mut found: Option<usize> = None;
            let mut i: usize = 0;
            while i < site_ids.len()
                invariant
                    i <= site_ids@.len(),
                    opt_usize(first_index_of(site_ids@.take(i as int), t@)) == found,
                    match first_index_of(site_ids@.take(i as int), t@) {
                        Some(k) => 0 <= k < i,
                        None => true,
                    },
                decreases site_ids@.len() - i,
            {
                assert(site_ids@.take(i as int + 1).drop_last() =~= site_ids@.take(i as int));
                if found.is_none() && site_ids[i].eq(t) {
                    found = Some(i);
                }
                i = i + 1;
            }
            assert(site_ids@.take(site_ids@.len() as int) =~= site_ids@);
            found
        },
    }
}

impl SessionCore {
    /// A session that has not been initialized yet.
    pub fn new() -> (r: SessionCore)
        ensures
            r@ == (SessionModel {
                state: SessionState::Uninitialized,
                credentials: None,
                site: None,
                filter: PersonFilter { favorites_only: false, term: None },
                reconnecting: false,
            }),
    {
        SessionCore {
            state: SessionState::Uninitialized,
            credentials: None,
            site: None,
            filter: PersonFilter { favorites_only: false, term: None },
            reconnecting: false,
        }
    }

    pub fn state(&self) -> (r: SessionState)
        ensures
            r == self@.state,
    {
        self.state
    }

    /// Marks the start of initialization (provider discovery).
    pub fn begin_init(&mut self)
        ensures
            final(self)@ == (SessionModel { state: SessionState::Initializing, ..old(self)@ }),
    {
        self.state = SessionState::Initializing;
    }

    /// Ends initialization: a session whose provider was found is logged out and
    /// announces it is ready; a failed one stays uninitialized and says so.
    pub fn finish_init(&mut self, succeeded: bool) -> (r: Vec<Action>)
        ensures
            succeeded ==> final(self)@ == (SessionModel {
                state: SessionState::LoggedOut,
                ..old(self)@
            }) && r@ == seq![Action::Emit(CoreEvent::InitializationFinished)],
            !succeeded ==> final(self)@ == (SessionModel {
                state: SessionState::Uninitialized,
                ..old(self)@
            }) && r@ == seq![Action::Emit(CoreEvent::InitializationFailed)],
    {
        let mut v: Vec<Action> = Vec::new();
        if succeeded {
            self.state = SessionState::LoggedOut;
            v.push(Action::Emit(CoreEvent::InitializationFinished));
        } else {
            self.state = SessionState::Uninitialized;
            v.push(Action::Emit(CoreEvent::InitializationFailed));
        }
        v
    }

    /// Decides how a backend call is authorized now (`create_client`'s check):
    /// with the access token, after a refresh of an expired one, or not at all.
    pub fn authorization(&self, now_ms: u64) -> (r: Authorization)
        ensures
            r == spec_authorization(self@, now_ms),
    {
        match &self.credentials {
            Some(c) => {
                if now_ms > c.expires_at_ms {
                    Authorization::Expired(c.refresh_token.clone())
                } else {
                    Authorization::Bearer(c.access_token.clone())
                }
            },
            None => Authorization::NotLoggedIn,
        }
    }

    /// Applies the result of the inline refresh of an expired access token: the
    /// credentials are replaced by those of the grant (which keep the old refresh
    /// token only where the grant brings none); a failure of any kind clears the
    /// credentials and logs out.
    pub fn run_token_refresh(&mut self, result: Result<TokenGrant, RefreshFailure>, now_ms: u64) -> (r:
        Vec<Action>)
        ensures
            old(self)@.credentials is None ==> final(self)@ == old(self)@ && r@.len() == 0,
            old(self)@.credentials is Some ==> match result {
                Ok(g) => {
                    &&& final(self)@ == (SessionModel {
                        credentials: spec_credentials_from_grant(
                            g,
                            Some(old(self)@.credentials->0.refresh_token),
                            now_ms,
                        ),
                        ..old(self)@
                    })
                    &&& final(self)@.credentials is Some
                    &&& r@.len() == 0
                },
                Err(_) => {
                    &&& final(self)@ == spec_logged_out(old(self)@)
                    &&& r@ == seq![Action::Emit(CoreEvent::LoggedOut)]
                },
            },
    {
        match &self.credentials {
            None => Vec::new(),
            Some(c) => {
                match result {
                    Ok(g) => {
                        let fallback = c.refresh_token.clone();
                        self.credentials = credentials_from_token_response_now(
                            g,
                            Some(fallback),
                            now_ms,
                        );
                        Vec::new()
                    },
                    Err(_) => self.logout(),
                }
            },
        }
    }

    /// Clears the credentials and logs out.
    pub fn logout(&mut self) -> (r: Vec<Action>)
        ensures
            final(self)@ == spec_logged_out(old(self)@),
            r@ == seq![Action::Emit(CoreEvent::LoggedOut)],
    {
        self.state = SessionState::LoggedOut;
        self.credentials = None;
        self.reconnecting = false;
        let mut v: Vec<Action> = Vec::new();
        v.push(Action::Emit(CoreEvent::LoggedOut));
        v
    }

    /// Installs credentials, from a code exchange or the reconnect loop.
    pub fn replace_credentials(&mut self, credentials: Credentials) -> (r: Vec<Action>)
        ensures
            final(self)@ == spec_authenticated(old(self)@, credentials),
            r@ == seq![Action::Emit(CoreEvent::LoginSuccessful)],
    {
        self.state = SessionState::Authenticated;
        self.credentials = Some(credentials);
        self.reconnecting = false;
        let mut v: Vec<Action> = Vec::new();
        v.push(Action::Emit(CoreEvent::LoginSuccessful));
        v
    }

    /// The presence query for the selected site, while authenticated.
    pub fn refresh_presences(&self) -> (r: Vec<Action>)
        ensures
            r@ == spec_presence_refresh(self@),
    {
        let mut v: Vec<Action> = Vec::new();
        if self.state == SessionState::Authenticated {
            match &self.site {
                Some(site_id) => {
                    let term = effective_term(&self.filter.term);
                    v.push(
                        Action::FetchPresences {
                            site_id: site_id.clone(),
                            favorites_only: self.filter.favorites_only,
                            term,
                        },
                    );
                },
                None => {},
            }
        }
        v
    }

    /// Says hello at the occupied sites and refreshes presences, while authenticated.
    pub fn update_own_presence(&self) -> (r: Vec<Action>)
        ensures
            r@ == spec_presence_update(self@),
    {
        if self.state == SessionState::Authenticated {
            let mut v: Vec<Action> = Vec::new();
            v.push(Action::PostHello);
            let mut rest = self.refresh_presences();
            v.append(&mut rest);
            v
        } else {
            Vec::new()
        }
    }

    /// Fetches the sites, while authenticated.
    pub fn refresh_sites(&self) -> (r: Vec<Action>)
        ensures
            r@ == spec_site_refresh(self@),
    {
        let mut v: Vec<Action> = Vec::new();
        if self.state == SessionState::Authenticated {
            v.push(Action::FetchSites);
        }
        v
    }

    /// Takes in the site IDs that a site fetch returned: the geofences are replaced,
    /// the selection is kept if still listed (the first site is taken where there was
    /// none), listeners learn the selected index, and presences are refreshed.
    pub fn sites_fetched(&mut self, site_ids: &Vec<String>) -> (r: Vec<Action>)
        ensures
            ({
                let sel = spec_select_site(old(self)@.site, site_ids@);
                let m2 = SessionModel {
                    site: match sel {
                        Some(i) => Some(site_ids@[i]),
                        None => None,
                    },
                    ..old(self)@
                };
                &&& final(self)@ == m2
                &&& r@ == seq![
                    Action::ReplaceGeofences,
                    Action::Emit(CoreEvent::SitesUpdated { selected_index: opt_usize(sel) }),
                ] + spec_presence_refresh(m2)
            }),
    {
        let sel = select_site(&self.site, site_ids);
        let n: usize = site_ids.len();
        proof {
            match self@.site {
                Some(t) => {
                    lemma_first_index_in_range(site_ids@, t@);
                },
                None => {},
            }
        }
        let ghost m0 = self@;
        let ghost spec_sel = spec_select_site(self@.site, site_ids@);
        match sel {
            Some(i) => {
                assert(spec_sel == Some(i as int));
                self.site = Some(site_ids[i].clone());
            },
            None => {
                assert(spec_sel is None);
                self.site = None;
            },
        }
        assert(self@ == (SessionModel {
            site: match spec_sel {
                Some(i) => Some(site_ids@[i]),
                None => None,
            },
            ..m0
        }));
        let mut v: Vec<Action> = Vec::new();
        v.push(Action::ReplaceGeofences);
        v.push(Action::Emit(CoreEvent::SitesUpdated { selected_index: sel }));
        let mut rest = self.refresh_presences();
        let ghost refresh = rest@;
        v.append(&mut rest);
        assert(v@ =~= seq![
            Action::ReplaceGeofences,
            Action::Emit(CoreEvent::SitesUpdated { selected_index: sel }),
        ] + refresh);
        v
    }

    /// Takes in the result of a presence query: listeners learn of the new presences.
    pub fn presences_fetched(&self) -> (r: Vec<Action>)
        ensures
            r@ == seq![Action::Emit(CoreEvent::PresencesChanged)],
    {
        let mut v: Vec<Action> = Vec::new();
        v.push(Action::Emit(CoreEvent::PresencesChanged));
        assert(v@ =~= seq![Action::Emit(CoreEvent::PresencesChanged)]);
        v
    }

    /// Replaces the selected site (none for an empty ID); refreshes presences only
    /// if the selection changed.
    pub fn set_site_impl(&mut self, site_id: String) -> (r: Vec<Action>)
        ensures
            step(old(self)@, Command::SetSite { site_id }, final(self)@, r@),
    {
        let new_site = if site_id.as_str().is_empty() {
            None
        } else {
            Some(site_id)
        };
        let changed = !same_site(&self.site, &new_site);
        self.site = new_site;
        if changed {
            self.refresh_presences()
        } else {
            Vec::new()
        }
    }

    /// Replaces the person filter and refreshes presences.
    pub fn set_filter(&mut self, filter: PersonFilter) -> (r: Vec<Action>)
        ensures
            step(old(self)@, Command::SetPersonFilter(filter), final(self)@, r@),
    {
        self.filter = filter;
        self.refresh_presences()
    }

    /// Adds or removes a favorite, then refreshes presences; nothing unless authenticated.
    pub fn publish_favorite_change(&self, user_id: String, favorite: bool) -> (r: Vec<Action>)
        ensures
            step(self@, Command::ChangeFavorite { user_id, favorite }, self@, r@),
    {
        if self.state == SessionState::Authenticated {
            let mut v: Vec<Action> = Vec::new();
            if favorite {
                v.push(Action::PutFavorite { user_id });
            } else {
                v.push(Action::DeleteFavorite { user_id });
            }
            let mut rest = self.refresh_presences();
            v.append(&mut rest);
            v
        } else {
            Vec::new()
        }
    }

    /// Publishes a calendar of announcements for a site; nothing unless authenticated.
    pub fn publish_own_announcements(&self, site_id: String, announcements: Vec<Announcement>) -> (r:
        Vec<Action>)
        ensures
            step(self@, Command::PublishAnnouncements { site_id, announcements }, self@, r@),
    {
        let mut v: Vec<Action> = Vec::new();
        if self.state == SessionState::Authenticated {
            let dated = dated_announcements(&announcements);
            v.push(Action::PutAnnouncements { site_id, announcements: dated });
        }
        v
    }

    /// Begins a login unless one is under way.
    pub fn start_login(&mut self) -> (r: Vec<Action>)
        ensures
            step(old(self)@, Command::StartLogin, final(self)@, r@),
    {
        let mut v: Vec<Action> = Vec::new();
        if self.state != SessionState::LoggingIn {
            self.state = SessionState::LoggingIn;
            v.push(Action::Emit(CoreEvent::LoggingIn));
            v.push(Action::BeginLogin);
            assert(v@ =~= seq![Action::Emit(CoreEvent::LoggingIn), Action::BeginLogin]);
        }
        v
    }

    /// Starts the reconnect loop, if there are credentials and no loop runs yet.
    pub fn attempt_reconnect(&mut self) -> (r: Vec<Action>)
        ensures
            step(old(self)@, Command::StartTokenRefresh, final(self)@, r@),
    {
        let mut v: Vec<Action> = Vec::new();
        if !self.reconnecting {
            match &self.credentials {
                Some(c) => {
                    let refresh_token = c.refresh_token.clone();
                    self.state = SessionState::Reauthenticating;
                    self.reconnecting = true;
                    v.push(Action::Emit(CoreEvent::LoggingIn));
                    v.push(Action::StartReconnect { refresh_token });
                    assert(v@ =~= seq![
                        Action::Emit(CoreEvent::LoggingIn),
                        Action::StartReconnect { refresh_token: c.refresh_token },
                    ]);
                },
                None => {},
            }
        }
        v
    }

    /// Takes in the result of an authorization-code exchange received at `now_ms`:
    /// a grant with a refresh token authenticates the session, which then fetches
    /// the sites and announces the login; anything else changes nothing.
    pub fn exchange_code_for_tokens(&mut self, result: Option<TokenGrant>, now_ms: u64) -> (r: Vec<
        Action,
    >)
        ensures
            match result {
                Some(g) => match spec_credentials_from_grant(g, None, now_ms) {
                    Some(c) => {
                        &&& final(self)@ == spec_authenticated(old(self)@, c)
                        &&& r@ == seq![
                            Action::FetchSites,
                            Action::Emit(CoreEvent::LoginSuccessful),
                        ]
                    },
                    None => final(self)@ == old(self)@ && r@.len() == 0,
                },
                None => final(self)@ == old(self)@ && r@.len() == 0,
            },
    {
        match result {
            Some(g) => {
                match credentials_from_token_response_now(g, None, now_ms) {
                    Some(c) => {
                        self.state = SessionState::Authenticated;
                        self.credentials = Some(c);
                        self.reconnecting = false;
                        let mut v = self.refresh_sites();
                        v.push(Action::Emit(CoreEvent::LoginSuccessful));
                        v
                    },
                    None => Vec::new(),
                }
            },
            None => Vec::new(),
        }
    }

    /// Processes one command to completion and returns the actions it asks for.
    pub fn process_command(&mut self, cmd: Command) -> (r: Vec<Action>)
        ensures
            step(old(self)@, cmd, final(self)@, r@),
    {
        match cmd {
            Command::StartLogin => self.start_login(),
            Command::CancelCurrentOperation => {
                let mut v: Vec<Action> = Vec::new();
                v.push(Action::SignalCancel);
                assert(v@ =~= seq![Action::SignalCancel]);
                v
            },
            Command::ExchangeCodeForToken { code, verifier } => {
                let mut v: Vec<Action> = Vec::new();
                if self.state == SessionState::LoggingIn {
                    v.push(Action::ExchangeCode { code, verifier });
                    assert(v@ =~= seq![Action::ExchangeCode { code, verifier }]);
                }
                v
            },
            Command::StartTokenRefresh => self.attempt_reconnect(),
            Command::ReplaceCredentials(c) => self.replace_credentials(c),
            Command::Logout => self.logout(),
            Command::RefreshPresences => self.update_own_presence(),
            Command::PublishAnnouncements { site_id, announcements } => {
                self.publish_own_announcements(site_id, announcements)
            },
            Command::ChangeFavorite { user_id, favorite } => {
                self.publish_favorite_change(user_id, favorite)
            },
            Command::SetSite { site_id } => self.set_site_impl(site_id),
            Command::SetPersonFilter(filter) => self.set_filter(filter),
            Command::ApplySettings(settings) => {
                let mut v: Vec<Action> = Vec::new();
                v.push(Action::StoreSettings(settings));
                assert(v@ =~= seq![Action::StoreSettings(settings)]);
                v
            },
            Command::Quit => {
                let mut v: Vec<Action> = Vec::new();
                v.push(Action::Emit(CoreEvent::Terminating));
                v.push(Action::Stop);
                assert(v@ =~= seq![Action::Emit(CoreEvent::Terminating), Action::Stop]);
                v
            },
        }
    }
}

/// A position that `first_index_of` finds lies inside the sequence.
pub proof fn lemma_first_index_in_range(ids: Seq<String>, t: Seq<char>)
    ensures
        match first_index_of(ids, t) {
            Some(i) => 0 <= i < ids.len(),
            None => true,
        },
    decreases ids.len(),
{
    if ids.len() > 0 {
        lemma_first_index_in_range(ids.drop_last(), t);
    }
}

/// Selecting the same site twice refreshes presences once at most: the first
/// selection of a new site by an authenticated session asks for exactly one
/// presence query, and the repeated selection asks for nothing.
pub proof fn lemma_repeated_site_selection_refreshes_once(
    m: SessionModel,
    first: String,
    again: String,
    m1: SessionModel,
    acts1: Seq<Action>,
    m2: SessionModel,
    acts2: Seq<Action>,
)
    requires
        first@ == again@,
        step(m, Command::SetSite { site_id: first }, m1, acts1),
        step(m1, Command::SetSite { site_id: again }, m2, acts2),
    ensures
        acts1.len() <= 1,
        m.state == SessionState::Authenticated && first@.len() > 0 && opt_view(m.site) != Some(
            first@,
        ) ==> acts1.len() == 1 && acts1[0] is FetchPresences,
        acts2.len() == 0,
        opt_view(m2.site) == opt_view(m1.site),
{
}

/// Logging out drops the credentials: the session is logged out, announces it,
/// and any later backend call is refused as not logged in rather than made with
/// stale credentials.
pub proof fn lemma_logout_refuses_backend_calls(
    m: SessionModel,
    m1: SessionModel,
    acts: Seq<Action>,
    now: u64,
)
    requires
        step(m, Command::Logout, m1, acts),
    ensures
        m1.state == SessionState::LoggedOut,
        m1.credentials is None,
        acts == seq![Action::Emit(CoreEvent::LoggedOut)],
        spec_authorization(m1, now) == Authorization::NotLoggedIn,
        spec_presence_update(m1).len() == 0,
        spec_site_refresh(m1).len() == 0,
{
}

/// A transport failure followed by a successful silent refresh: the failure starts
/// the reconnect loop with the session's refresh token, the loop installs the new
/// credentials, the session ends authenticated with them, and no logout is
/// announced on the way. A refresh that fails for another reason than a rejected
/// refresh token waits and retries instead of logging out.
pub proof fn lemma_reconnect_after_transport_failure(
    m: SessionModel,
    grant: TokenGrant,
    now: u64,
    m1: SessionModel,
    acts1: Seq<Action>,
    m2: SessionModel,
    acts2: Seq<Action>,
)
    requires
        m.state == SessionState::Authenticated,
        m.credentials is Some,
        !m.reconnecting,
        step(m, spec_post_hook(CallFailure::Transport)->0, m1, acts1),
        step(
            m1,
            Command::ReplaceCredentials(
                spec_after_refresh_attempt(Ok(grant), m.credentials->0.refresh_token, now)->0,
            ),
            m2,
            acts2,
        ),
    ensures
        acts1 == seq![
            Action::Emit(CoreEvent::LoggingIn),
            Action::StartReconnect { refresh_token: m.credentials->0.refresh_token },
        ],
        spec_after_refresh_attempt(
            Err(RefreshFailure::Other),
            m.credentials->0.refresh_token,
            now,
        ) == ReconnectStep::Wait,
        spec_after_refresh_attempt(Ok(grant), m.credentials->0.refresh_token, now) is Replace,
        m2.state == SessionState::Authenticated,
        Some(m2.credentials->0) == spec_credentials_from_grant(
            grant,
            Some(m.credentials->0.refresh_token),
            now,
        ),
        !(acts1 + acts2).contains(Action::Emit(CoreEvent::LoggedOut)),
{
    let all = acts1 + acts2;
    assert(all =~= seq![
        Action::Emit(CoreEvent::LoggingIn),
        Action::StartReconnect { refresh_token: m.credentials->0.refresh_token },
        Action::Emit(CoreEvent::LoginSuccessful),
    ]);
    assert forall|i: int| 0 <= i < all.len() implies all[i] != Action::Emit(CoreEvent::LoggedOut) by {
    }
}

/// Every command keeps the session well formed.
pub proof fn lemma_step_keeps_well_formed(
    m: SessionModel,
    cmd: Command,
    m2: SessionModel,
    acts: Seq<Action>,
)
    requires
        well_formed(m),
        step(m, cmd, m2, acts),
    ensures
        well_formed(m2),
{
}

} // verus!
