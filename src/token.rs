//! Credentials and their lifecycle: the effective expiry of an issued token,
//! credentials built from a token grant, and the decisions of the reconnect loop
//! that silently refreshes a session after a transport failure.

use vstd::prelude::*;

verus! {

/// Lifetime taken for a token whose grant states none, in milliseconds.
pub const DEFAULT_TOKEN_LIFETIME_MS: u64 = 60_000;

/// Pause between two refresh attempts of the reconnect loop, in milliseconds.
pub const RECONNECT_RETRY_INTERVAL_MS: u64 = 10_000;

/// What a session holds to call the backend. Instants are milliseconds on the
/// caller's monotonic clock.
#[derive(Clone, Debug, PartialEq, Eq)]
pub struct Credentials {
    pub access_token: String,
    pub refresh_token: String,
    pub expires_at_ms: u64,
}

/// The parts of an identity provider's token response that a session keeps.
#[derive(Clone, Debug, PartialEq, Eq)]
pub struct TokenGrant {
    pub access_token: String,
    pub refresh_token: Option<String>,
    pub expires_in_ms: Option<u64>,
}

/// Why a refresh-token exchange failed.
#[derive(Clone, Copy, Debug, PartialEq, Eq)]
pub enum RefreshFailure {
    /// The provider rejected the refresh token itself (`invalid_grant`): retrying cannot help.
    InvalidGrant,
    /// Anything else: network trouble, a server error, a malformed answer.
    Other,
}

/// What the reconnect loop does next.
#[derive(Clone, Debug, PartialEq, Eq)]
pub enum ReconnectStep {
    /// Install these credentials in the session; the loop ends.
    Replace(Credentials),
    /// Log the session out; the loop ends.
    Logout,
    /// Wait one retry interval, unless cancelled meanwhile.
    Wait,
    /// Try the refresh-token exchange again.
    Retry,
}

/// Nine tenths of a lifetime, rounded down: the margin that tolerates clock skew.
pub open spec fn effective_lifetime(lifetime: int) -> int {
    lifetime * 9 / 10
}

/// The instant at which a token issued at `now` stops being used, saturated at `u64::MAX`.
pub open spec fn spec_expires_at(now: u64, expires_in: Option<u64>) -> u64 {
    let lifetime: u64 = match expires_in {
        Some(e) => e,
        None => DEFAULT_TOKEN_LIFETIME_MS,
    };
    let at = now + effective_lifetime(lifetime as int);
    if at <= u64::MAX {
        at as u64
    } else {
        u64::MAX
    }
}

/// Expiry of a token received at `now_ms` whose grant states `expires_in_ms`
/// (one minute when it states none), shortened to nine tenths of the lifetime.
pub fn expires_at_from_now(now_ms: u64, expires_in_ms: Option<u64>) -> (r: u64)
    ensures
        r == spec_expires_at(now_ms, expires_in_ms),
{
    let lifetime: u64 = match expires_in_ms {
        Some(e) => e,
        None => DEFAULT_TOKEN_LIFETIME_MS,
    };
    let tens: u64 = lifetime / 10;
    let rest: u64 = lifetime % 10;
    proof {
        assert(lifetime == 10 * tens + rest);
        assert((10 * tens + rest) * 9 / 10 == 9 * tens + rest * 9 / 10) by (nonlinear_arith)
            requires
                rest < 10,
        ;
    }
    let effective: u64 = tens * 9 + rest * 9 / 10;
    if now_ms <= u64::MAX - effective {
        now_ms + effective
    } else {
        u64::MAX
    }
}

/// Credentials from a grant received at `now`: the grant's refresh token, or the
/// fallback where the grant carries none; `None` where neither exists.
pub open spec fn spec_credentials_from_grant(
    grant: TokenGrant,
    fallback_refresh_token: Option<String>,
    now: u64,
) -> Option<Credentials> {
    let refresh = match grant.refresh_token {
        Some(r) => Some(r),
        None => fallback_refresh_token,
    };
    match refresh {
        Some(r) => Some(
            Credentials {
                access_token: grant.access_token,
                refresh_token: r,
                expires_at_ms: spec_expires_at(now, grant.expires_in_ms),
            },
        ),
        None => None,
    }
}

/// Builds credentials from a token grant received at `now_ms`. A grant without a
/// refresh token keeps `fallback_refresh_token`; with neither there are no credentials.
pub fn credentials_from_token_response_now(
    grant: TokenGrant,
    fallback_refresh_token: Option<String>,
    now_ms: u64,
) -> (r: Option<Credentials>)
    ensures
        r == spec_credentials_from_grant(grant, fallback_refresh_token, now_ms),
{
    let expires_at_ms = expires_at_from_now(now_ms, grant.expires_in_ms);
    let refresh = match grant.refresh_token {
        Some(r) => Some(r),
        None => fallback_refresh_token,
    };
    match refresh {
        Some(refresh_token) => Some(
            Credentials { access_token: grant.access_token, refresh_token, expires_at_ms },
        ),
        None => None,
    }
}

/// The reconnect loop's decision after one refresh-token exchange.
pub open spec fn spec_after_refresh_attempt(
    result: Result<TokenGrant, RefreshFailure>,
    refresh_token: String,
    now: u64,
) -> ReconnectStep {
    match result {
        Ok(grant) => ReconnectStep::Replace(
            spec_credentials_from_grant(grant, Some(refresh_token), now)->0,
        ),
        Err(RefreshFailure::InvalidGrant) => ReconnectStep::Logout,
        Err(RefreshFailure::Other) => ReconnectStep::Wait,
    }
}

/// Decides what follows one refresh attempt of the reconnect loop, which holds
/// `refresh_token`: new credentials end the loop, a rejected refresh token logs out,
/// any other failure waits for the next retry.
pub fn after_refresh_attempt(
    result: Result<TokenGrant, RefreshFailure>,
    refresh_token: String,
    now_ms: u64,
) -> (r: ReconnectStep)
    ensures
        r == spec_after_refresh_attempt(result, refresh_token, now_ms),
{
    match result {
        Ok(grant) => {
            let c = credentials_from_token_response_now(grant, Some(refresh_token), now_ms);
            match c {
                Some(c) => ReconnectStep::Replace(c),
                None => ReconnectStep::Logout,
            }
        },
        Err(RefreshFailure::InvalidGrant) => ReconnectStep::Logout,
        Err(RefreshFailure::Other) => ReconnectStep::Wait,
    }
}

/// Decides what follows a wait of the reconnect loop: a cancellation seen while
/// waiting logs out, otherwise the refresh is tried again.
pub fn after_retry_wait(cancelled: bool) -> (r: ReconnectStep)
    ensures
        r == (if cancelled {
            ReconnectStep::Logout
        } else {
            ReconnectStep::Retry
        }),
{
    if cancelled {
        ReconnectStep::Logout
    } else {
        ReconnectStep::Retry
    }
}

/// Where a reconnect loop that is never cancelled ends, over its attempts in
/// order (each result with the instant it arrived): the first decision other
/// than waiting ends it, since a wait without cancellation leads to a retry.
pub open spec fn spec_reconnect_outcome(
    attempts: Seq<(Result<TokenGrant, RefreshFailure>, u64)>,
    refresh_token: String,
) -> Option<ReconnectStep>
    decreases attempts.len(),
{
    if attempts.len() == 0 {
        None
    } else {
        let step = spec_after_refresh_attempt(attempts[0].0, refresh_token, attempts[0].1);
        if step == ReconnectStep::Wait {
            spec_reconnect_outcome(attempts.skip(1), refresh_token)
        } else {
            Some(step)
        }
    }
}

/// Any number of failed attempts other than a rejected refresh token, then a
/// successful one: the loop keeps retrying and ends by installing the
/// credentials of the successful grant, keeping the loop's refresh token where the
/// grant brings none. It never logs out on the way.
pub proof fn lemma_reconnect_survives_transient_failures(
    attempts: Seq<(Result<TokenGrant, RefreshFailure>, u64)>,
    refresh_token: String,
    grant: TokenGrant,
    now: u64,
)
    requires
        attempts.len() >= 1,
        attempts.last() == (Ok::<TokenGrant, RefreshFailure>(grant), now),
        forall|i: int|
            0 <= i < attempts.len() - 1 ==> #[trigger] attempts[i].0 == Err::<
                TokenGrant,
                RefreshFailure,
            >(RefreshFailure::Other),
    ensures
        spec_reconnect_outcome(attempts, refresh_token) == Some(
            ReconnectStep::Replace(
                spec_credentials_from_grant(grant, Some(refresh_token), now)->0,
            ),
        ),
        forall|i: int|
            0 <= i < attempts.len() - 1 ==> spec_after_refresh_attempt(
                #[trigger] attempts[i].0,
                refresh_token,
                attempts[i].1,
            ) == ReconnectStep::Wait,
    decreases attempts.len(),
{
    if attempts.len() > 1 {
        let rest = attempts.skip(1);
        assert(rest.last() == attempts.last());
        assert forall|i: int| 0 <= i < rest.len() - 1 implies #[trigger] rest[i].0 == Err::<
            TokenGrant,
            RefreshFailure,
        >(RefreshFailure::Other) by {
            assert(rest[i] == attempts[i + 1]);
        }
        lemma_reconnect_survives_transient_failures(rest, refresh_token, grant, now);
        assert(attempts[0].0 == Err::<TokenGrant, RefreshFailure>(RefreshFailure::Other));
    }
}

} // verus!
