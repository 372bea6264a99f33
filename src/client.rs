//! The decisions of an authenticated client: which answers mean "rate
//! limited", when an access token must be fetched, and the header that
//! carries it.
use vstd::prelude::*;
use vstd::string::StringExecFns;
use crate::cache::{expired_at, expiry_of, CString, CacheEntry, InMemoryCache};
use crate::error::Error;

verus! {

broadcast use vstd::string::group_string_axioms;

/// Seconds to wait after a rate-limited answer.
pub const RATE_LIMIT_BACKOFF_SECS: i64 = 61;

/// Default lifetime of a cached access token, in seconds.
pub const TOKEN_TTL_SECS: i64 = 3600;

/// The settings of the metering-data client.
pub struct Config {
    /// The long-lived credential exchanged for access tokens.
    pub refresh_token: String,
}

/// The answer of the token exchange.
pub struct TokenResponse {
    pub result: String,
}

/// Whether an HTTP status means that the service is rate limiting.
pub open spec fn is_rate_limit_status(status: u16) -> bool {
    status == 429 || status == 503
}

/// The time until which a caller rate limited at `now` should wait.
pub open spec fn retry_after(now: i64) -> i64 {
    if now + RATE_LIMIT_BACKOFF_SECS > i64::MAX { i64::MAX } else { (now + RATE_LIMIT_BACKOFF_SECS) as i64 }
}

/// Classifies a completed answer by its status: `429` and `503` become
/// `RateLimited` until `now + 61` seconds; every other answer, successful
/// or not, is handed back unchanged.
pub fn check_response<R>(resp: R, status: u16, now: i64) -> (r: Result<R, Error>)
    ensures
        is_rate_limit_status(status) ==> (r matches Err(Error::RateLimited(t)) && t == retry_after(now)),
        !is_rate_limit_status(status) ==> r == Ok::<R, Error>(resp),
{
    if status == 429 || status == 503 {
        let until = if now > i64::MAX - RATE_LIMIT_BACKOFF_SECS { i64::MAX } else { now + RATE_LIMIT_BACKOFF_SECS };
        Err(Error::RateLimited(until))
    } else {
        Ok(resp)
    }
}

/// What to do for a token before an authenticated request.
#[derive(Debug, Clone, Copy, PartialEq, Eq, Structural)]
pub enum TokenPlan {
    /// Exchange the refresh credential for a new token; `store` says whether
    /// to keep it in the cache afterwards.
    Exchange { store: bool },
    /// Use the token held in the cache.
    Reuse,
}

pub open spec fn plan_of(cache_attached: bool, expired: bool) -> TokenPlan {
    if !cache_attached {
        TokenPlan::Exchange { store: false }
    } else if expired {
        TokenPlan::Exchange { store: true }
    } else {
        TokenPlan::Reuse
    }
}

/// Without a cache every request exchanges the credential and keeps
/// nothing; with one, a missing or expired token is exchanged and stored,
/// and a live one is reused.
pub fn plan_token(cache_attached: bool, expired: bool) -> (r: TokenPlan)
    ensures
        r == plan_of(cache_attached, expired),
{
    if !cache_attached {
        TokenPlan::Exchange { store: false }
    } else if expired {
        TokenPlan::Exchange { store: true }
    } else {
        TokenPlan::Reuse
    }
}

/// The cache key under which the access token is kept.
pub open spec fn token_key() -> Seq<char> {
    seq!['A', 'C', 'C', 'E', 'S', 'S', '_', 'T', 'O', 'K', 'E', 'N']
}

/// The cache key under which the access token is kept.
pub fn cache_key() -> (r: &'static str)
    ensures
        r@ == token_key(),
{
    proof { reveal_strlit("ACCESS_TOKEN"); }
    "ACCESS_TOKEN"
}

/// The token to use at `now` from an in-memory cache: the cached one where
/// it is live, `None` where a new one must be fetched.
pub fn cached_token(cache: &InMemoryCache<CString>, now: i64) -> (r: Option<String>)
    ensures
        r is None <==> expired_at(cache.expiry(token_key()), now),
        r matches Some(t) ==> t@ == cache@[token_key()].value@,
{
    let key = cache_key();
    let expired = cache.has_expired_at(key, now);
    match plan_token(true, expired) {
        TokenPlan::Reuse => match cache.lookup(key) {
            Some(e) => Some(e.value.clone().into_string()),
            None => None,
        },
        TokenPlan::Exchange { .. } => None,
    }
}

/// Keeps a freshly exchanged token in the cache, with the cache's default
/// lifetime from `now`.
pub fn store_token(cache: &mut InMemoryCache<CString>, token: String, now: i64)
    ensures
        final(cache).default_ttl() == old(cache).default_ttl(),
        final(cache)@ == old(cache)@.insert(token_key(), (CacheEntry {
            value: final(cache)@[token_key()].value,
            expires_at: expiry_of(None, now, old(cache).default_ttl()) as i64,
        })),
        final(cache)@[token_key()].value@ == token@,
{
    cache.put_at(cache_key(), CString::new(token), None, now);
}

/// The `Authorization` header value for a token.
pub fn bearer(token: &str) -> (r: String)
    ensures
        r@ == seq!['B', 'e', 'a', 'r', 'e', 'r', ' '] + token@,
{
    proof { reveal_strlit("Bearer "); }
    let mut out = String::from_str("Bearer ");
    out.append(token);
    out
}

/// Token reuse: without a cache two requests in a row both exchange the
/// credential. With a cache and no live token, the first request exchanges
/// and stores; a second one before the lifetime has passed reuses the
/// stored token and exchanges nothing.
pub proof fn lemma_token_reuse(
    cold: &InMemoryCache<CString>,
    warm: &InMemoryCache<CString>,
    token: Seq<char>,
    t0: i64,
    t1: i64,
    e1: bool,
    e2: bool,
)
    requires
        expired_at(cold.expiry(token_key()), t0),
        warm@ == cold@.insert(token_key(), (CacheEntry {
            value: warm@[token_key()].value,
            expires_at: expiry_of(None, t0, cold.default_ttl()) as i64,
        })),
        warm@[token_key()].value@ == token,
        t0 <= t1 <= t0 + cold.default_ttl() <= i64::MAX,
    ensures
        plan_of(false, e1) == (TokenPlan::Exchange { store: false }),
        plan_of(false, e2) == (TokenPlan::Exchange { store: false }),
        plan_of(true, expired_at(cold.expiry(token_key()), t0)) == (TokenPlan::Exchange { store: true }),
        plan_of(true, expired_at(warm.expiry(token_key()), t1)) == TokenPlan::Reuse,
        warm@[token_key()].value@ == token,
{
}

} // verus!
