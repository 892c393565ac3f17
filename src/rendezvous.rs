//! The login rendezvous. A native client that cannot host a redirect target
//! subscribes under a correlation ID (the OAuth `state` value); the identity
//! provider's redirect later delivers the authorization code under the same ID.
//! `PendingLogins` pairs the two: it holds, per correlation ID, the sending half of
//! a single-use channel (`S`) that leads to the waiting subscriber.

use vstd::prelude::*;
use vstd::string::StrSliceExecFns;
use crate::text::{str_eq, starts_with};

verus! {

/// A subscription was refused because its correlation ID is already pending.
#[derive(Clone, Copy, Debug, PartialEq, Eq)]
pub enum SubscribeError {
    Conflict,
}

/// A delivery failed.
#[derive(Clone, Copy, Debug, PartialEq, Eq)]
pub enum DeliverError {
    /// No login is pending under this state: expired, cancelled or bogus.
    NoPendingLogin,
    /// The subscriber went away before the code could be handed over.
    ReceiverGone,
}

impl SubscribeError {
    /// The HTTP status that reports the error.
    pub fn status(&self) -> (r: u16)
        ensures
            r == 409,
    {
        409
    }
}

impl DeliverError {
    /// The HTTP status that reports the error.
    pub fn status(&self) -> (r: u16)
        ensures
            r == 404,
    {
        404
    }
}

/// The login rendezvous could not be addressed.
#[derive(Clone, Copy, Debug, PartialEq, Eq)]
pub enum UrlError {
    /// The API base URL is neither `http://` nor `https://`.
    UnsupportedScheme,
}

/// Pending logins: at most one entry per correlation ID.
pub struct PendingLogins<S> {
    entries: Vec<(String, S)>,
}

pub open spec fn has_key<S>(e: Seq<(Seq<char>, S)>, k: Seq<char>) -> bool {
    exists|i: int| 0 <= i < e.len() && e[i].0 == k
}

pub open spec fn key_index<S>(e: Seq<(Seq<char>, S)>, k: Seq<char>) -> int {
    choose|i: int| 0 <= i < e.len() && e[i].0 == k
}

pub open spec fn distinct_keys<S>(e: Seq<(Seq<char>, S)>) -> bool {
    forall|i: int, j: int| 0 <= i < e.len() && 0 <= j < e.len() && i != j ==> e[i].0 != e[j].0
}

/// The map that a list of entries with distinct keys stands for.
pub open spec fn map_of<S>(e: Seq<(Seq<char>, S)>) -> Map<Seq<char>, S> {
    Map::new(|k: Seq<char>| has_key(e, k), |k: Seq<char>| e[key_index(e, k)].1)
}

pub open spec fn entry_view<S>(p: (String, S)) -> (Seq<char>, S) {
    (p.0@, p.1)
}

impl<S> PendingLogins<S> {
    pub closed spec fn entries_view(&self) -> Seq<(Seq<char>, S)> {
        self.entries@.map_values(|p: (String, S)| entry_view(p))
    }

    /// Correlation IDs are unique.
    pub closed spec fn well_formed(&self) -> bool {
        distinct_keys(self.entries_view())
    }
}

impl<S> View for PendingLogins<S> {
    type V = Map<Seq<char>, S>;

    closed spec fn view(&self) -> Map<Seq<char>, S> {
        map_of(self.entries_view())
    }
}

/// A subscription under `id` with `sender`: refused while `id` is pending, which
/// leaves the pending logins as they are; otherwise `id` becomes pending.
pub open spec fn spec_subscribe<S>(m: Map<Seq<char>, S>, id: Seq<char>, sender: S) -> (
    Map<Seq<char>, S>,
    Result<(), SubscribeError>,
) {
    if m.contains_key(id) {
        (m, Err(SubscribeError::Conflict))
    } else {
        (m.insert(id, sender), Ok(()))
    }
}

/// A delivery under `state`: the pending login is taken out and its sender handed
/// back; without one nothing changes.
pub open spec fn spec_deliver<S>(m: Map<Seq<char>, S>, state: Seq<char>) -> (
    Map<Seq<char>, S>,
    Result<S, DeliverError>,
) {
    if m.contains_key(state) {
        (m.remove(state), Ok(m[state]))
    } else {
        (m, Err(DeliverError::NoPendingLogin))
    }
}

/// Two subscriptions under one correlation ID: the second is refused with a
/// conflict and leaves the first in place, so that a delivery under that ID still
/// reaches the first subscriber.
pub proof fn lemma_duplicate_subscribe_keeps_first<S>(
    m: Map<Seq<char>, S>,
    id: Seq<char>,
    first: S,
    second: S,
)
    requires
        !m.contains_key(id),
    ensures
        ({
            let (m1, r1) = spec_subscribe(m, id, first);
            let (m2, r2) = spec_subscribe(m1, id, second);
            let (m3, r3) = spec_deliver(m2, id);
            &&& r1 is Ok
            &&& r2 == Err::<(), SubscribeError>(SubscribeError::Conflict)
            &&& m2 == m1
            &&& r3 == Ok::<S, DeliverError>(first)
            &&& m3 == m
        }),
{
    let m1 = m.insert(id, first);
    assert(m1.remove(id) =~= m);
}

/// A delivery under a state with no pending login fails and changes nothing.
pub proof fn lemma_unknown_deliver_has_no_effect<S>(m: Map<Seq<char>, S>, state: Seq<char>)
    requires
        !m.contains_key(state),
    ensures
        spec_deliver(m, state) == (m, Err::<S, DeliverError>(DeliverError::NoPendingLogin)),
{
}

/// Two deliveries under one state have exactly one winner: the first takes the
/// pending login, the second finds none.
pub proof fn lemma_double_deliver_single_winner<S>(m: Map<Seq<char>, S>, state: Seq<char>)
    ensures
        ({
            let (m1, r1) = spec_deliver(m, state);
            let (m2, r2) = spec_deliver(m1, state);
            &&& r2 == Err::<S, DeliverError>(DeliverError::NoPendingLogin)
            &&& m2 == m1
            &&& (r1 is Ok <==> m.contains_key(state))
        }),
{
}

/// Appending an entry under a new key inserts it into the map.
pub proof fn lemma_map_of_push<S>(e: Seq<(Seq<char>, S)>, k: Seq<char>, v: S)
    requires
        distinct_keys(e),
        !has_key(e, k),
    ensures
        map_of(e.push((k, v))) == map_of(e).insert(k, v),
        distinct_keys(e.push((k, v))),
{
    let t = e.push((k, v));
    assert forall|i: int, j: int| 0 <= i < t.len() && 0 <= j < t.len() && i != j implies t[i].0
        != t[j].0 by {
        if i < e.len() && j < e.len() {
            assert(t[i] == e[i] && t[j] == e[j]);
        } else if i < e.len() {
            assert(t[i] == e[i]);
        } else if j < e.len() {
            assert(t[j] == e[j]);
        }
    }
    assert forall|x: Seq<char>| #[trigger] map_of(t).contains_key(x) == map_of(e).insert(
        k,
        v,
    ).contains_key(x) by {
        if has_key(t, x) {
            let i = choose|i: int| 0 <= i < t.len() && t[i].0 == x;
            if i < e.len() {
                assert(e[i].0 == x);
            }
        }
        if has_key(e, x) {
            let i = choose|i: int| 0 <= i < e.len() && e[i].0 == x;
            assert(t[i].0 == x);
        }
        if x == k {
            assert(t[e.len() as int].0 == x);
        }
    }
    assert forall|x: Seq<char>| #[trigger]
        map_of(t).contains_key(x) implies map_of(t)[x] == map_of(e).insert(k, v)[x] by {
        let i = key_index(t, x);
        if x == k {
            assert(t[e.len() as int].0 == x);
            assert(i == e.len());
        } else {
            let j = key_index(e, x);
            assert(has_key(e, x)) by {
                assert(i < e.len());
                assert(e[i].0 == x);
            }
            assert(t[j].0 == x);
            assert(i == j);
        }
    }
    assert(map_of(t) =~= map_of(e).insert(k, v));
}

/// Removing the entry at `i` removes its key from the map.
pub proof fn lemma_map_of_remove<S>(e: Seq<(Seq<char>, S)>, i: int)
    requires
        distinct_keys(e),
        0 <= i < e.len(),
    ensures
        map_of(e.remove(i)) == map_of(e).remove(e[i].0),
        distinct_keys(e.remove(i)),
        map_of(e).contains_key(e[i].0),
        map_of(e)[e[i].0] == e[i].1,
{
    let t = e.remove(i);
    let k = e[i].0;
    assert(key_index(e, k) == i);
    assert forall|a: int, b: int| 0 <= a < t.len() && 0 <= b < t.len() && a != b implies t[a].0
        != t[b].0 by {
        let oa = if a < i { a } else { a + 1 };
        let ob = if b < i { b } else { b + 1 };
        assert(t[a] == e[oa] && t[b] == e[ob]);
    }
    assert forall|x: Seq<char>| #[trigger] map_of(t).contains_key(x) == map_of(e).remove(
        k,
    ).contains_key(x) by {
        if has_key(t, x) {
            let a = choose|a: int| 0 <= a < t.len() && t[a].0 == x;
            let oa = if a < i { a } else { a + 1 };
            assert(e[oa].0 == x);
            assert(oa != i);
        }
        if has_key(e, x) && x != k {
            let a = choose|a: int| 0 <= a < e.len() && e[a].0 == x;
            assert(a != i);
            let ta = if a < i { a } else { a - 1 };
            assert(t[ta].0 == x);
        }
    }
    assert forall|x: Seq<char>| #[trigger]
        map_of(t).contains_key(x) implies map_of(t)[x] == map_of(e).remove(k)[x] by {
        let a = key_index(t, x);
        let oa = if a < i { a } else { a + 1 };
        assert(e[oa].0 == x);
        assert(key_index(e, x) == oa);
    }
    assert(map_of(t) =~= map_of(e).remove(k));
}

impl<S> PendingLogins<S> {
    /// No pending logins.
    pub fn new() -> (r: PendingLogins<S>)
        ensures
            r.well_formed(),
            r@ == Map::<Seq<char>, S>::empty(),
    {
        let r = PendingLogins { entries: Vec::new() };
        assert(r.entries_view() =~= Seq::<(Seq<char>, S)>::empty());
        assert(r@ =~= Map::<Seq<char>, S>::empty());
        r
    }

    /// The position of the entry for `id`.
    fn position(&self, id: &str) -> (r: Option<usize>)
        requires
            self.well_formed(),
        ensures
            match r {
                Some(i) => i < self.entries_view().len() && self.entries_view()[i as int].0
                    == id@,
                None => !has_key(self.entries_view(), id@),
            },
    {
        let mut i: usize = 0;
        while i < self.entries.len()
            invariant
                i <= self.entries@.len(),
                forall|j: int| 0 <= j < i ==> self.entries@[j].0@ != id@,
            decreases self.entries@.len() - i,
        {
            if str_eq(self.entries[i].0.as_str(), id) {
                return Some(i);
            }
            i = i + 1;
        }
        None
    }

    /// Whether a login is pending under `id`.
    pub fn is_pending(&self, id: &str) -> (r: bool)
        requires
            self.well_formed(),
        ensures
            r == self@.contains_key(id@),
    {
        self.position(id).is_some()
    }

    /// Opens a login under `correlation_id`, to be answered through `sender`. An ID
    /// that is already pending is refused, the pending entry left untouched and
    /// `sender` dropped.
    pub fn subscribe(&mut self, correlation_id: String, sender: S) -> (r: Result<(), SubscribeError>)
        requires
            old(self).well_formed(),
        ensures
            final(self).well_formed(),
            (final(self)@, r) == spec_subscribe(old(self)@, correlation_id@, sender),
    {
        match self.position(correlation_id.as_str()) {
            Some(_) => Err(SubscribeError::Conflict),
            None => {
                let ghost e0 = self.entries_view();
                let ghost k = correlation_id@;
                self.entries.push((correlation_id, sender));
                proof {
                    assert(self.entries_view() =~= e0.push((k, sender)));
                    lemma_map_of_push(e0, k, sender);
                }
                Ok(())
            },
        }
    }

    /// Takes the pending login under `state` out of the map and hands back its
    /// sender, through which the caller passes the code on. Of two deliveries under
    /// one state only the first finds the entry.
    pub fn deliver(&mut self, state: &str) -> (r: Result<S, DeliverError>)
        requires
            old(self).well_formed(),
        ensures
            final(self).well_formed(),
            (final(self)@, r) == spec_deliver(old(self)@, state@),
    {
        match self.position(state) {
            Some(i) => {
                let ghost e0 = self.entries_view();
                let (_, sender) = self.entries.remove(i);
                proof {
                    assert(self.entries_view() =~= e0.remove(i as int));
                    lemma_map_of_remove(e0, i as int);
                }
                Ok(sender)
            },
            None => Err(DeliverError::NoPendingLogin),
        }
    }

    /// Forgets the pending login under `correlation_id`, whose subscriber has gone
    /// away; a login already delivered or never opened is left alone.
    pub fn abandon(&mut self, correlation_id: &str) -> (r: bool)
        requires
            old(self).well_formed(),
        ensures
            final(self).well_formed(),
            r == old(self)@.contains_key(correlation_id@),
            final(self)@ == old(self)@.remove(correlation_id@),
    {
        let ghost m0 = self@;
        match self.deliver(correlation_id) {
            Ok(_) => true,
            Err(_) => {
                assert(m0.remove(correlation_id@) =~= m0);
                false
            },
        }
    }
}

/// The path under which a client subscribes to the rendezvous.
pub const LOGIN_REQUESTS_PATH: &'static str = "/api/public/oidc/login-requests/";

/// The path to which the identity provider redirects the browser.
pub const LOGIN_TARGET_PATH: &'static str = "/api/public/oidc/login-target";

/// The redirect target registered with the identity provider.
pub open spec fn spec_redirect_url(api_base_url: Seq<char>) -> Seq<char> {
    api_base_url + LOGIN_TARGET_PATH@
}

/// The WebSocket address of the rendezvous for `correlation_id`: the subscribe
/// path under the API base URL, with `http` turned into `ws` and `https` into `wss`.
pub open spec fn spec_login_request_url(api_base_url: Seq<char>, correlation_id: Seq<char>) -> Option<
    Seq<char>,
> {
    let full = api_base_url + LOGIN_REQUESTS_PATH@ + correlation_id;
    if "https://"@.len() <= full.len() && full.subrange(0, "https://"@.len() as int)
        == "https://"@ {
        Some("wss://"@ + full.skip("https://"@.len() as int))
    } else if "http://"@.len() <= full.len() && full.subrange(0, "http://"@.len() as int)
        == "http://"@ {
        Some("ws://"@ + full.skip("http://"@.len() as int))
    } else {
        None
    }
}

/// The redirect target for the API at `api_base_url`.
pub fn redirect_url(api_base_url: &str) -> (r: String)
    ensures
        r@ == spec_redirect_url(api_base_url@),
{
    let mut url = String::from_str(api_base_url);
    url.append(LOGIN_TARGET_PATH);
    url
}

/// Replaces the scheme prefix `from` of `url` by `to`.
fn with_scheme(url: &str, from: &str, to: &str) -> (r: String)
    requires
        from@.len() <= url@.len(),
    ensures
        r@ == to@ + url@.skip(from@.len() as int),
{
    let n = url.unicode_len();
    let rest = url.substring_char(from.unicode_len(), n);
    let mut r = String::from_str(to);
    r.append(rest);
    r
}

/// The WebSocket address under which the client waits for the authorization code.
pub fn login_request_url(api_base_url: &str, correlation_id: &str) -> (r: Result<String, UrlError>)
    ensures
        match spec_login_request_url(api_base_url@, correlation_id@) {
            Some(u) => r is Ok && r->Ok_0@ == u,
            None => r == Err::<String, UrlError>(UrlError::UnsupportedScheme),
        },
{
    let mut full = String::from_str(api_base_url);
    full.append(LOGIN_REQUESTS_PATH);
    full.append(correlation_id);
    if starts_with(full.as_str(), "https://") {
        Ok(with_scheme(full.as_str(), "https://", "wss://"))
    } else if starts_with(full.as_str(), "http://") {
        Ok(with_scheme(full.as_str(), "http://", "ws://"))
    } else {
        Err(UrlError::UnsupportedScheme)
    }
}

} // verus!
