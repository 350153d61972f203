//! Per-source rate limiting with token buckets.
//!
//! Times are milliseconds on a clock that the caller reads; a bucket never
//! reads the clock itself.
use vstd::prelude::*;
use dashmap::DashMap;

verus! {

/// Milliseconds from `since` to `now`; zero if `now` is earlier.
pub open spec fn elapsed(now: u64, since: u64) -> nat {
    if now >= since {
        (now - since) as nat
    } else {
        0
    }
}

/// A token bucket as plain values.
pub ghost struct BucketView {
    pub max_tokens: nat,
    pub reset_ms: nat,
    pub last_reset_ms: u64,
    pub token_count: nat,
    pub expire_ms: nat,
}

/// A full bucket whose window starts at `now`.
pub open spec fn fresh_bucket(max_tokens: nat, reset_ms: nat, expire_ms: nat, now: u64) -> BucketView {
    BucketView { max_tokens, reset_ms, last_reset_ms: now, token_count: max_tokens, expire_ms }
}

/// The bucket after a reset attempt at `now`: refilled, with its window
/// starting at `now`, if its window has elapsed; else unchanged.
pub open spec fn reset_bucket(b: BucketView, now: u64) -> BucketView {
    if elapsed(now, b.last_reset_ms) >= b.reset_ms {
        BucketView { token_count: b.max_tokens, last_reset_ms: now, ..b }
    } else {
        b
    }
}

/// Taking a token at `now`: an empty bucket first tries a reset; then a
/// token is taken if there is one. Gives whether one was taken, and the
/// bucket after.
pub open spec fn use_token(b: BucketView, now: u64) -> (bool, BucketView) {
    let b1 = if b.token_count == 0 {
        reset_bucket(b, now)
    } else {
        b
    };
    if b1.token_count == 0 {
        (false, b1)
    } else {
        (true, BucketView { token_count: (b1.token_count - 1) as nat, ..b1 })
    }
}

/// A bucket has expired once the time since its last reset exceeds its
/// expiry interval.
pub open spec fn bucket_expired(b: BucketView, now: u64) -> bool {
    elapsed(now, b.last_reset_ms) > b.expire_ms
}

/// Token bucket behaviour: a fresh bucket of capacity 3 and window 1000 ms
/// grants three requests within the window and refuses a fourth; a request
/// once the window has elapsed is granted again.
pub proof fn law_token_bucket(expire_ms: nat, t0: u64, t1: u64, t2: u64, t3: u64, t4: u64)
    requires
        t0 <= t1 <= t2 <= t3,
        t3 < t0 + 1000,
        t4 >= t0 + 1000,
    ensures
        ({
            let (r1, b1) = use_token(fresh_bucket(3, 1000, expire_ms, t0), t1);
            let (r2, b2) = use_token(b1, t2);
            let (r3, b3) = use_token(b2, t3);
            let (r4, b4) = use_token(b3, t3);
            let (r5, b5) = use_token(b4, t4);
            r1 && r2 && r3 && !r4 && r5
        }),
{
}

/// Expiry: in a limiter whose buckets all expire after `expire_ms`, a
/// bucket left untouched for longer than that since its last refill is gone
/// after a maintenance pass; a bucket touched more recently stays as it was.
pub proof fn law_expired_bucket_removed(m: Map<u32, BucketView>, expire_ms: nat, k: u32, now: u64)
    requires
        forall|j: u32| #[trigger] m.contains_key(j) ==> m[j].expire_ms == expire_ms,
        m.contains_key(k),
    ensures
        ({
            let after = m.restrict(m.dom().filter(|j: u32| !bucket_expired(m[j], now)));
            &&& elapsed(now, m[k].last_reset_ms) > expire_ms ==> !after.contains_key(k)
            &&& elapsed(now, m[k].last_reset_ms) <= expire_ms ==> after.contains_key(k)
                && after[k] == m[k]
        }),
{
}

/// A request from `id` at `now` to a limiter whose buckets are `m`: the
/// bucket of `id`, or a full new one if it has none, gives up a token if it
/// can. Gives whether it did, and the buckets after.
pub open spec fn service(
    m: Map<u32, BucketView>,
    limit_count: nat,
    limit_ms: nat,
    expire_ms: nat,
    id: u32,
    now: u64,
) -> (bool, Map<u32, BucketView>) {
    let b0 = if m.contains_key(id) {
        m[id]
    } else {
        fresh_bucket(limit_count, limit_ms, expire_ms, now)
    };
    (use_token(b0, now).0, m.insert(id, use_token(b0, now).1))
}

/// A token bucket: up to `max_tokens` permits, refilled once `reset_ms` has
/// passed since the last refill, when the bucket is found empty.
#[derive(Debug, Clone, Copy)]
pub struct TokenBucket {
    max_tokens: usize,
    reset_ms: u64,
    last_reset_ms: u64,
    token_count: usize,
    expire_ms: u64,
}

impl View for TokenBucket {
    type V = BucketView;

    closed spec fn view(&self) -> BucketView {
        BucketView {
            max_tokens: self.max_tokens as nat,
            reset_ms: self.reset_ms as nat,
            last_reset_ms: self.last_reset_ms,
            token_count: self.token_count as nat,
            expire_ms: self.expire_ms as nat,
        }
    }
}

impl TokenBucket {
    /// A full bucket whose window starts at `now_ms`.
    pub fn new(max_tokens: usize, reset_ms: u64, expire_ms: u64, now_ms: u64) -> (r: TokenBucket)
        ensures
            r@ == fresh_bucket(max_tokens as nat, reset_ms as nat, expire_ms as nat, now_ms),
    {
        TokenBucket { max_tokens, reset_ms, last_reset_ms: now_ms, token_count: max_tokens, expire_ms }
    }

    pub fn is_expired(&self, now_ms: u64) -> (r: bool)
        ensures
            r == bucket_expired(self@, now_ms),
    {
        self.elapsed(now_ms) > self.expire_ms
    }

    /// Whether the bucket is still in use at `now_ms`.
    pub fn is_live(&self, now_ms: u64) -> (r: bool)
        ensures
            r == !bucket_expired(self@, now_ms),
    {
        !self.is_expired(now_ms)
    }

    fn elapsed(&self, now_ms: u64) -> (r: u64)
        ensures
            r == elapsed(now_ms, self@.last_reset_ms),
    {
        if now_ms >= self.last_reset_ms {
            now_ms - self.last_reset_ms
        } else {
            0
        }
    }

    /// If a token is available, uses it and returns true; otherwise returns
    /// false. An empty bucket is first refilled if its window has elapsed.
    pub fn try_use_token(&mut self, now_ms: u64) -> (r: bool)
        ensures
            (r, final(self)@) == use_token(old(self)@, now_ms),
    {
        if self.token_count == 0 {
            self.try_reset(now_ms);
        }
        if self.token_count == 0 {
            false
        } else {
            self.token_count = self.token_count - 1;
            true
        }
    }

    /// Refills the bucket if its window has elapsed.
    pub fn try_reset(&mut self, now_ms: u64)
        ensures
            final(self)@ == reset_bucket(old(self)@, now_ms),
    {
        if self.elapsed(now_ms) >= self.reset_ms {
            self.token_count = self.max_tokens;
            self.last_reset_ms = now_ms;
        }
    }

    /// Tokens left.
    pub fn tokens(&self) -> (r: usize)
        ensures
            r == self@.token_count,
    {
        self.token_count
    }
}

/// The buckets that a map holds, by key.
pub uninterp spec fn bucket_table(m: DashMap<u32, TokenBucket>) -> Map<u32, TokenBucket>;

/// Relies on `DashMap::new`: a new map is empty.
#[verifier::external_body]
fn new_bucket_table() -> (r: DashMap<u32, TokenBucket>)
    ensures
        bucket_table(r).dom().is_empty(),
{
    DashMap::new()
}

/// Relies on `DashMap::get`: a copy of the bucket under the key, if any.
#[verifier::external_body]
fn bucket_get(m: &DashMap<u32, TokenBucket>, key: u32) -> (r: Option<TokenBucket>)
    ensures
        r == (if bucket_table(*m).contains_key(key) {
            Some(bucket_table(*m)[key])
        } else {
            None
        }),
{
    m.get(&key).map(|b| *b.value())
}

/// Relies on `DashMap::insert`: afterwards the key maps to the bucket and
/// nothing else changed.
#[verifier::external_body]
fn bucket_insert(m: &mut DashMap<u32, TokenBucket>, key: u32, bucket: TokenBucket)
    ensures
        bucket_table(*final(m)) == bucket_table(*old(m)).insert(key, bucket),
{
    m.insert(key, bucket);
}

/// Relies on `DashMap::retain`: keeps exactly the buckets still live at
/// `now_ms`, unchanged.
#[verifier::external_body]
fn bucket_retain_live(m: &mut DashMap<u32, TokenBucket>, now_ms: u64)
    ensures
        bucket_table(*final(m)) == bucket_table(*old(m)).restrict(
            bucket_table(*old(m)).dom().filter(
                |k: u32| !bucket_expired(bucket_table(*old(m))[k]@, now_ms),
            ),
        ),
{
    m.retain(|_, v| v.is_live(now_ms))
}

/// Relies on `DashMap::shrink_to_fit`: it frees spare capacity only.
#[verifier::external_body]
fn bucket_shrink(m: &mut DashMap<u32, TokenBucket>)
    ensures
        bucket_table(*final(m)) == bucket_table(*old(m)),
{
    m.shrink_to_fit()
}

/// How many times the rate window a bucket stays after its last refill.
pub const EXPIRE_MULTIPLIER: u64 = 3;

/// Token buckets by key: `limit_count` requests per `limit_ms` for each key.
pub struct RateLimiter {
    limit_count: usize,
    limit_ms: u64,
    expire_ms: u64,
    data: DashMap<u32, TokenBucket>,
}

impl View for RateLimiter {
    type V = Map<u32, BucketView>;

    closed spec fn view(&self) -> Map<u32, BucketView> {
        bucket_table(self.data).map_values(|b: TokenBucket| b@)
    }
}

impl RateLimiter {
    pub closed spec fn spec_limit_count(&self) -> nat {
        self.limit_count as nat
    }

    pub closed spec fn spec_limit_ms(&self) -> nat {
        self.limit_ms as nat
    }

    pub closed spec fn spec_expire_ms(&self) -> nat {
        self.expire_ms as nat
    }

    /// Every bucket carries the limiter's count, window and expiry, and the
    /// expiry is three windows.
    pub open spec fn wf(&self) -> bool {
        &&& self.spec_expire_ms() == self.spec_limit_ms() * 3
        &&& forall|k: u32|
            #[trigger] self@.contains_key(k) ==> self@[k].max_tokens == self.spec_limit_count()
                && self@[k].reset_ms == self.spec_limit_ms() && self@[k].expire_ms
                == self.spec_expire_ms()
    }

    /// A limiter with no buckets; buckets expire after three windows.
    pub fn new(rate_limit_count: usize, rate_limit_ms: u64) -> (r: RateLimiter)
        requires
            rate_limit_ms <= u64::MAX / 3,
        ensures
            r.wf(),
            r@.dom().is_empty(),
            r.spec_limit_count() == rate_limit_count,
            r.spec_limit_ms() == rate_limit_ms,
            r.spec_expire_ms() == rate_limit_ms * 3,
    {
        let r = RateLimiter {
            limit_count: rate_limit_count,
            limit_ms: rate_limit_ms,
            expire_ms: rate_limit_ms * EXPIRE_MULTIPLIER,
            data: new_bucket_table(),
        };
        proof {
            assert(r@ =~= Map::<u32, BucketView>::empty());
        }
        r
    }

    /// Takes a token from the bucket of `id` at `now_ms`, creating a full
    /// bucket first if there is none. Returns whether the request may be
    /// served.
    pub fn can_service(&mut self, id: u32, now_ms: u64) -> (r: bool)
        requires
            old(self).wf(),
        ensures
            final(self).wf(),
            final(self).spec_limit_count() == old(self).spec_limit_count(),
            final(self).spec_limit_ms() == old(self).spec_limit_ms(),
            final(self).spec_expire_ms() == old(self).spec_expire_ms(),
            (r, final(self)@) == service(
                old(self)@,
                old(self).spec_limit_count(),
                old(self).spec_limit_ms(),
                old(self).spec_expire_ms(),
                id,
                now_ms,
            ),
    {
        let mut bucket = match bucket_get(&self.data, id) {
            Some(b) => b,
            None => TokenBucket::new(self.limit_count, self.limit_ms, self.expire_ms, now_ms),
        };
        proof {
            if old(self)@.contains_key(id) {
                assert(bucket@ == old(self)@[id]);
            }
        }
        let r = bucket.try_use_token(now_ms);
        bucket_insert(&mut self.data, id, bucket);
        proof {
            assert(self@ =~= old(self)@.insert(id, bucket@));
            assert(bucket@.max_tokens == self.spec_limit_count() && bucket@.reset_ms
                == self.spec_limit_ms() && bucket@.expire_ms == self.spec_expire_ms());
        }
        r
    }

    /// Removes every bucket that has expired at `now_ms`; keeps the others
    /// as they are.
    pub fn maintain(&mut self, now_ms: u64)
        requires
            old(self).wf(),
        ensures
            final(self).wf(),
            final(self).spec_limit_count() == old(self).spec_limit_count(),
            final(self).spec_limit_ms() == old(self).spec_limit_ms(),
            final(self).spec_expire_ms() == old(self).spec_expire_ms(),
            final(self)@ == old(self)@.restrict(
                old(self)@.dom().filter(|k: u32| !bucket_expired(old(self)@[k], now_ms)),
            ),
    {
        bucket_retain_live(&mut self.data, now_ms);
        bucket_shrink(&mut self.data);
        proof {
            assert(self@ =~= old(self)@.restrict(
                old(self)@.dom().filter(|k: u32| !bucket_expired(old(self)@[k], now_ms)),
            ));
        }
    }

    /// Whether `id` has a bucket.
    pub fn contains(&self, id: u32) -> (r: bool)
        ensures
            r == self@.contains_key(id),
    {
        bucket_get(&self.data, id).is_some()
    }
}

} // verus!
