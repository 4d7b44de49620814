//! A limit on the requests of one client within a window of time.

use dashmap::DashMap;
use vstd::prelude::*;
use crate::outside::{is_clock_reading, now_millis};

verus! {

/// Length of the window, in milliseconds: one minute.
pub const RATE_WINDOW_MS: i64 = 60_000;

/// Number of seconds in the window.
pub const RATE_WINDOW_SECONDS: u32 = 60;

/// What is kept of one client: the start of its window and the requests
/// counted in it.
#[derive(Clone, Copy, Debug, PartialEq, Eq, Structural)]
pub struct TokenBucket {
    pub tokens: u32,
    pub last_refill: i64,
    pub window_start: i64,
    pub request_count: u32,
}

impl TokenBucket {
    /// The bucket of a client that is seen for the first time at `now`.
    pub open spec fn fresh(requests_per_window: u32, now: i64) -> TokenBucket {
        TokenBucket {
            tokens: requests_per_window,
            last_refill: now,
            window_start: now,
            request_count: 0,
        }
    }

    /// The bucket at `now` before a request is counted: a window that has
    /// lasted its length is over, and a new one starts empty.
    pub open spec fn renewed(self, now: i64, requests_per_window: u32, window_ms: i64) -> TokenBucket {
        if now - self.window_start >= window_ms {
            TokenBucket { window_start: now, request_count: 0, tokens: requests_per_window, ..self }
        } else {
            self
        }
    }

    /// Whether a request at `now` is within the limit.
    pub open spec fn admits(self, now: i64, requests_per_window: u32, window_ms: i64) -> bool {
        self.renewed(now, requests_per_window, window_ms).request_count < requests_per_window
    }

    /// The bucket after a request at `now`: the request is counted if it is
    /// within the limit.
    pub open spec fn after_request(self, now: i64, requests_per_window: u32, window_ms: i64) -> TokenBucket {
        let renewed = self.renewed(now, requests_per_window, window_ms);
        if renewed.request_count < requests_per_window {
            TokenBucket {
                request_count: (renewed.request_count + 1) as u32,
                last_refill: now,
                ..renewed
            }
        } else {
            renewed
        }
    }

    /// The bucket of a client that is seen for the first time at `now`.
    pub fn new_at(requests_per_window: u32, now: i64) -> (bucket: Self)
        ensures
            bucket == Self::fresh(requests_per_window, now),
    {
        TokenBucket {
            tokens: requests_per_window,
            last_refill: now,
            window_start: now,
            request_count: 0,
        }
    }

    /// Takes a request at `now`: says whether it is within the limit, and
    /// counts it if it is.
    pub fn take_request(&mut self, now: i64, requests_per_window: u32, window_ms: i64) -> (admitted: bool)
        ensures
            admitted == old(self).admits(now, requests_per_window, window_ms),
            *final(self) == old(self).after_request(now, requests_per_window, window_ms),
    {
        if (now as i128) - (self.window_start as i128) >= window_ms as i128 {
            self.window_start = now;
            self.request_count = 0;
            self.tokens = requests_per_window;
        }
        if self.request_count >= requests_per_window {
            return false;
        }
        self.request_count = self.request_count + 1;
        self.last_refill = now;
        true
    }
}

/// The concurrent map of dashmap.
#[verifier::external_type_specification]
#[verifier::external_body]
#[verifier::reject_recursive_types(K)]
#[verifier::reject_recursive_types(V)]
#[verifier::reject_recursive_types(S)]
pub struct ExDashMap<K, V, S>(dashmap::DashMap<K, V, S>);

/// The buckets that a map holds, by client.
pub uninterp spec fn buckets_of(buckets: DashMap<String, TokenBucket>) -> Map<Seq<char>, TokenBucket>;

/// Makes a map: `DashMap::new`.
///
/// Assumed: the map holds nothing.
#[verifier::external_body]
fn no_buckets() -> (fresh: DashMap<String, TokenBucket>)
    ensures
        forall|client_key: Seq<char>| !buckets_of(fresh).contains_key(client_key),
{
    DashMap::new()
}

/// Looks a client up: `DashMap::get`, of which the value is copied.
///
/// Assumed: the bucket is the one that the map holds for the client, and
/// `None` if it holds none.
#[verifier::external_body]
fn bucket_at(
    buckets: &DashMap<String, TokenBucket>,
    client_key: &str,
) -> (bucket: Option<TokenBucket>)
    ensures
        bucket == if buckets_of(*buckets).contains_key(client_key@) {
            Some(buckets_of(*buckets)[client_key@])
        } else {
            None::<TokenBucket>
        },
{
    buckets.get(client_key).map(|entry| *entry)
}

/// Keeps a bucket for a client: `DashMap::insert`.
///
/// Assumed: the map then holds the bucket for the client, in the place of
/// the one it held for the client before, and all the other buckets as
/// before.
#[verifier::external_body]
fn keep_bucket(
    buckets: &mut DashMap<String, TokenBucket>,
    client_key: String,
    bucket: TokenBucket,
)
    ensures
        buckets_of(*final(buckets)) == buckets_of(*old(buckets)).insert(client_key@, bucket),
{
    buckets.insert(client_key, bucket);
}

/// The buckets by client, with the limit and the length of the window.
#[derive(Debug)]
pub struct RateLimiter {
    pub buckets: DashMap<String, TokenBucket>,
    pub requests_per_window: u32,
    pub window_duration_ms: i64,
}

impl RateLimiter {
    /// The buckets by client.
    pub open spec fn clients(&self) -> Map<Seq<char>, TokenBucket> {
        buckets_of(self.buckets)
    }

    /// The bucket of `client_key` as a request at `now` finds it: the
    /// client's bucket, or a fresh one.
    pub open spec fn bucket_of(&self, client_key: Seq<char>, now: i64) -> TokenBucket {
        if self.clients().contains_key(client_key) {
            self.clients()[client_key]
        } else {
            TokenBucket::fresh(self.requests_per_window, now)
        }
    }

    /// A limiter that lets each client make `requests_per_second` requests
    /// a second, counted over a minute.
    pub fn new(requests_per_second: u32) -> (limiter: Self)
        requires
            requests_per_second * RATE_WINDOW_SECONDS <= u32::MAX,
        ensures
            limiter.clients() == Map::<Seq<char>, TokenBucket>::empty(),
            limiter.requests_per_window == requests_per_second * RATE_WINDOW_SECONDS,
            limiter.window_duration_ms == RATE_WINDOW_MS,
    {
        RateLimiter {
            buckets: no_buckets(),
            requests_per_window: requests_per_second * RATE_WINDOW_SECONDS,
            window_duration_ms: RATE_WINDOW_MS,
        }
    }

    /// Takes a request of `client_key` at the time `now`: says whether it
    /// is within the limit, and counts it if it is. A client that is seen
    /// for the first time gets a bucket.
    pub fn check_rate_limit_at(&mut self, client_key: &str, now: i64) -> (admitted: bool)
        ensures
            admitted == old(self).bucket_of(client_key@, now).admits(
                now,
                old(self).requests_per_window,
                old(self).window_duration_ms,
            ),
            final(self).clients() == old(self).clients().insert(
                client_key@,
                old(self).bucket_of(client_key@, now).after_request(
                    now,
                    old(self).requests_per_window,
                    old(self).window_duration_ms,
                ),
            ),
            final(self).requests_per_window == old(self).requests_per_window,
            final(self).window_duration_ms == old(self).window_duration_ms,
    {
        let mut bucket = match bucket_at(&self.buckets, client_key) {
            Some(bucket) => bucket,
            None => TokenBucket::new_at(self.requests_per_window, now),
        };
        let admitted = bucket.take_request(now, self.requests_per_window, self.window_duration_ms);
        keep_bucket(&mut self.buckets, client_key.to_owned(), bucket);
        admitted
    }

    /// Takes a request of `client_key` now.
    pub fn check_rate_limit(&mut self, client_key: &str) -> (admitted: bool)
        ensures
            exists|now: i64|
                is_clock_reading(now) && admitted == #[trigger] old(self).bucket_of(
                    client_key@,
                    now,
                ).admits(now, old(self).requests_per_window, old(self).window_duration_ms)
                    && final(self).clients() == old(self).clients().insert(
                    client_key@,
                    old(self).bucket_of(client_key@, now).after_request(
                        now,
                        old(self).requests_per_window,
                        old(self).window_duration_ms,
                    ),
                ),
            final(self).requests_per_window == old(self).requests_per_window,
            final(self).window_duration_ms == old(self).window_duration_ms,
    {
        let now = now_millis();
        self.check_rate_limit_at(client_key, now)
    }
}

} // verus!
