//! Rate limiting: a token bucket per key for burst control, a sliding
//! window per key for the steady state, and a global token bucket over
//! everything.
//!
//! An admission consumes from all three or from none: the checks run
//! non-destructively first, and only a request all three admit commits.
//! The per-key window must let a full burst through, so its limit is the
//! burst capacity or the steady-state allowance, whichever is larger.

use vstd::prelude::*;

verus! {

use vstd::arithmetic::mul::lemma_mul_upper_bound;
use vstd::string::StringExecFns;
use crate::keymap::KeyMap;

/// Faults raised while admitting requests.
#[derive(Debug)]
pub enum RateLimitError {
    LimitExceeded { key: String, limit: u64, window_secs: u64 },
    QuotaExhausted { key: String },
}

/// Limiter configuration.
#[derive(Clone, Copy, Debug)]
pub struct RateLimitConfig {
    pub requests_per_second: u64,
    pub burst_capacity: u64,
    pub window_secs: u64,
    pub adaptive: bool,
}

impl RateLimitConfig {
    /// The products the limiter computes stay representable.
    pub open spec fn wf(&self) -> bool {
        &&& self.requests_per_second * 10 <= u64::MAX
        &&& self.burst_capacity * 10 <= u64::MAX
        &&& self.requests_per_second * self.window_secs <= u64::MAX
    }
}

impl Default for RateLimitConfig {
    fn default() -> (r: Self)
        ensures
            r.requests_per_second == 100,
            r.burst_capacity == 200,
            r.window_secs == 60,
            r.adaptive,
            r.wf(),
    {
        RateLimitConfig {
            requests_per_second: 100,
            burst_capacity: 200,
            window_secs: 60,
            adaptive: true,
        }
    }
}

/// The per-key sliding-window limit: large enough for the steady state and
/// for one full burst.
pub open spec fn spec_window_limit(c: RateLimitConfig) -> u64
    recommends
        c.wf(),
{
    if c.burst_capacity > c.requests_per_second * c.window_secs {
        c.burst_capacity
    } else {
        (c.requests_per_second * c.window_secs) as u64
    }
}

/// A token bucket: capacity, refill rate in tokens per second, a balance
/// and the time it was last refilled.
pub struct TokenBucket {
    pub tokens: u64,
    pub last_refill_ms: i64,
    pub capacity: u64,
    pub refill_rate: u64,
}

/// The balance after refilling at `now_ms`: the elapsed time earns whole
/// tokens, capped at capacity; an earning of zero leaves the stamp alone so
/// fractions keep accruing.
pub open spec fn spec_refilled_tokens(b: TokenBucket, now_ms: i64) -> int {
    if now_ms > b.last_refill_ms {
        let add = (now_ms - b.last_refill_ms) * b.refill_rate / 1000;
        if add > 0 {
            if b.tokens + add > b.capacity {
                b.capacity as int
            } else {
                b.tokens + add
            }
        } else {
            b.tokens as int
        }
    } else {
        b.tokens as int
    }
}

/// The refill stamp after refilling at `now_ms`.
pub open spec fn spec_refilled_last(b: TokenBucket, now_ms: i64) -> i64 {
    if now_ms > b.last_refill_ms && (now_ms - b.last_refill_ms) * b.refill_rate / 1000 > 0 {
        now_ms
    } else {
        b.last_refill_ms
    }
}

impl TokenBucket {
    /// A full bucket, stamped with the current time.
    pub fn new(capacity: u64, refill_rate: u64, now_ms: i64) -> (r: Self)
        ensures
            r.tokens == capacity,
            r.last_refill_ms == now_ms,
            r.capacity == capacity,
            r.refill_rate == refill_rate,
    {
        TokenBucket { tokens: capacity, last_refill_ms: now_ms, capacity, refill_rate }
    }

    /// Earn tokens for the time since the last refill.
    fn refill(&mut self, now_ms: i64)
        ensures
            final(self).tokens == spec_refilled_tokens(*old(self), now_ms),
            final(self).last_refill_ms == spec_refilled_last(*old(self), now_ms),
            final(self).capacity == old(self).capacity,
            final(self).refill_rate == old(self).refill_rate,
    {
        if now_ms > self.last_refill_ms {
            let elapsed: i128 = (now_ms as i128) - (self.last_refill_ms as i128);
            proof {
                lemma_mul_upper_bound(
                    elapsed as int,
                    0xFFFFFFFFFFFFFFFF,
                    self.refill_rate as int,
                    0xFFFFFFFFFFFFFFFF,
                );
            }
            let add: u128 = (elapsed as u128) * (self.refill_rate as u128) / 1000;
            if add > 0 {
                let sum: u128 = (self.tokens as u128) + add;
                if sum > self.capacity as u128 {
                    self.tokens = self.capacity;
                } else {
                    self.tokens = sum as u64;
                }
                self.last_refill_ms = now_ms;
            }
        }
    }

    /// The balance a refill at `now_ms` would leave, without performing it.
    pub fn available(&self, now_ms: i64) -> (r: u64)
        ensures
            r == spec_refilled_tokens(*self, now_ms),
    {
        if now_ms > self.last_refill_ms {
            let elapsed: i128 = (now_ms as i128) - (self.last_refill_ms as i128);
            proof {
                lemma_mul_upper_bound(
                    elapsed as int,
                    0xFFFFFFFFFFFFFFFF,
                    self.refill_rate as int,
                    0xFFFFFFFFFFFFFFFF,
                );
            }
            let add: u128 = (elapsed as u128) * (self.refill_rate as u128) / 1000;
            if add > 0 {
                let sum: u128 = (self.tokens as u128) + add;
                if sum > self.capacity as u128 {
                    self.capacity
                } else {
                    sum as u64
                }
            } else {
                self.tokens
            }
        } else {
            self.tokens
        }
    }

    /// Refill, then take `count` tokens if they are there.
    pub fn try_acquire(&mut self, count: u64, now_ms: i64) -> (r: bool)
        ensures
            r == (count <= spec_refilled_tokens(*old(self), now_ms)),
            final(self).tokens == (if r {
                spec_refilled_tokens(*old(self), now_ms) - count
            } else {
                spec_refilled_tokens(*old(self), now_ms)
            }),
            final(self).last_refill_ms == spec_refilled_last(*old(self), now_ms),
            final(self).capacity == old(self).capacity,
            final(self).refill_rate == old(self).refill_rate,
    {
        self.refill(now_ms);
        if self.tokens >= count {
            self.tokens = self.tokens - count;
            true
        } else {
            false
        }
    }
}

/// The entries of a window with stamps after the cutoff, in order.
pub open spec fn keep_recent(s: Seq<(i64, u64)>, cutoff: int) -> Seq<(i64, u64)>
    decreases s.len(),
{
    if s.len() == 0 {
        Seq::empty()
    } else {
        (if s[0].0 > cutoff {
            seq![s[0]]
        } else {
            Seq::empty()
        }) + keep_recent(s.drop_first(), cutoff)
    }
}

/// The counts of the entries with stamps after the cutoff.
pub open spec fn sum_recent(s: Seq<(i64, u64)>, cutoff: int) -> int
    decreases s.len(),
{
    if s.len() == 0 {
        0
    } else {
        (if s[0].0 > cutoff {
            s[0].1 as int
        } else {
            0
        }) + sum_recent(s.drop_first(), cutoff)
    }
}

/// The counts of all entries.
pub open spec fn sum_all(s: Seq<(i64, u64)>) -> int
    decreases s.len(),
{
    if s.len() == 0 {
        0
    } else {
        s[0].1 + sum_all(s.drop_first())
    }
}

proof fn lemma_sum_recent_le_sum_all(s: Seq<(i64, u64)>, cutoff: int)
    ensures
        0 <= sum_recent(s, cutoff) <= sum_all(s),
    decreases s.len(),
{
    if s.len() > 0 {
        lemma_sum_recent_le_sum_all(s.drop_first(), cutoff);
    }
}

proof fn lemma_keep_recent_push(s: Seq<(i64, u64)>, x: (i64, u64), cutoff: int)
    ensures
        keep_recent(s.push(x), cutoff) == keep_recent(s, cutoff) + (if x.0 > cutoff {
            seq![x]
        } else {
            Seq::<(i64, u64)>::empty()
        }),
        sum_recent(s.push(x), cutoff) == sum_recent(s, cutoff) + (if x.0 > cutoff {
            x.1 as int
        } else {
            0
        }),
        sum_all(s.push(x)) == sum_all(s) + x.1,
    decreases s.len(),
{
    let tail = if x.0 > cutoff {
        seq![x]
    } else {
        Seq::<(i64, u64)>::empty()
    };
    if s.len() == 0 {
        assert(s.push(x)[0] == x);
        assert(s.push(x).drop_first() =~= Seq::<(i64, u64)>::empty());
        assert(keep_recent(Seq::<(i64, u64)>::empty(), cutoff) == Seq::<(i64, u64)>::empty());
        assert(sum_recent(Seq::<(i64, u64)>::empty(), cutoff) == 0);
        assert(sum_all(Seq::<(i64, u64)>::empty()) == 0);
        assert(keep_recent(s.push(x), cutoff) =~= tail);
        assert(keep_recent(s, cutoff) + tail =~= tail);
        assert(sum_recent(s, cutoff) == 0);
        assert(sum_all(s) == 0);
    } else {
        assert(s.push(x).drop_first() =~= s.drop_first().push(x));
        lemma_keep_recent_push(s.drop_first(), x, cutoff);
        let head = if s[0].0 > cutoff {
            seq![s[0]]
        } else {
            Seq::<(i64, u64)>::empty()
        };
        assert(s.push(x)[0] == s[0]);
        assert(keep_recent(s.push(x), cutoff) == head + (keep_recent(s.drop_first(), cutoff)
            + tail));
        assert(head + (keep_recent(s.drop_first(), cutoff) + tail) =~= (head + keep_recent(
            s.drop_first(),
            cutoff,
        )) + tail);
    }
}

/// Kept entries carry their whole sum: pruning loses only stale counts.
proof fn lemma_sum_all_keep_recent(s: Seq<(i64, u64)>, cutoff: int)
    ensures
        sum_all(keep_recent(s, cutoff)) == sum_recent(s, cutoff),
        forall|i: int|
            0 <= i < keep_recent(s, cutoff).len() ==> (#[trigger] keep_recent(s, cutoff)[i]).0
                > cutoff,
    decreases s.len(),
{
    if s.len() > 0 {
        lemma_sum_all_keep_recent(s.drop_first(), cutoff);
        let rest = keep_recent(s.drop_first(), cutoff);
        if s[0].0 > cutoff {
            assert(keep_recent(s, cutoff) =~= seq![s[0]] + rest);
            assert((seq![s[0]] + rest).drop_first() =~= rest);
        } else {
            assert(keep_recent(s, cutoff) =~= rest);
        }
    }
}

/// A sliding window: stamped counts, a duration and a steady-state limit.
pub struct SlidingWindow {
    entries: Vec<(i64, u64)>,
    window_secs: u64,
    limit: u64,
}

/// The prune cutoff for a lookup at `now_ms`.
pub open spec fn spec_cutoff(now_ms: i64, window_secs: u64) -> int {
    now_ms - window_secs * 1000
}

impl SlidingWindow {
    pub closed spec fn entries_seq(&self) -> Seq<(i64, u64)> {
        self.entries@
    }

    pub closed spec fn spec_window_secs(&self) -> u64 {
        self.window_secs
    }

    pub closed spec fn spec_limit(&self) -> u64 {
        self.limit
    }

    /// The stored counts never exceed the limit.
    pub open spec fn wf(&self) -> bool {
        sum_all(self.entries_seq()) <= self.spec_limit()
    }

    pub fn new(window_secs: u64, limit: u64) -> (r: Self)
        ensures
            r.wf(),
            r.entries_seq().len() == 0,
            r.spec_window_secs() == window_secs,
            r.spec_limit() == limit,
    {
        SlidingWindow { entries: Vec::new(), window_secs, limit }
    }

    /// Prune stale entries, then admit the count exactly when the window's
    /// surviving total plus the count fits the limit.
    pub fn try_acquire(&mut self, count: u64, now_ms: i64) -> (r: bool)
        requires
            old(self).wf(),
        ensures
            final(self).wf(),
            final(self).spec_window_secs() == old(self).spec_window_secs(),
            final(self).spec_limit() == old(self).spec_limit(),
            ({
                let cutoff = spec_cutoff(now_ms, old(self).spec_window_secs());
                let kept = keep_recent(old(self).entries_seq(), cutoff);
                &&& r == (sum_recent(old(self).entries_seq(), cutoff) + count <= old(self).spec_limit())
                &&& (r ==> final(self).entries_seq() == kept.push((now_ms, count)))
                &&& (!r ==> final(self).entries_seq() == kept)
            }),
    {
        let ghost cutoff = spec_cutoff(now_ms, self.window_secs);
        let cutoff_exec: i128 = (now_ms as i128) - (self.window_secs as i128) * 1000;
        let mut drained = self.entries.split_off(0);
        let ghost orig = drained@;
        proof {
            assert(self.entries@ =~= keep_recent(orig.take(0), cutoff));
            assert(drained@ =~= orig.skip(0));
            lemma_sum_all_keep_recent(orig.take(0), cutoff);
        }
        while drained.len() > 0
            invariant
                drained@.len() <= orig.len(),
                drained@ == orig.skip(orig.len() - drained@.len()),
                self.entries@ == keep_recent(orig.take(orig.len() - drained@.len()), cutoff),
                cutoff == spec_cutoff(now_ms, self.window_secs),
                cutoff_exec == cutoff,
                self.window_secs == old(self).spec_window_secs(),
                self.limit == old(self).spec_limit(),
            decreases drained@.len(),
        {
            let ghost k = orig.len() - drained@.len();
            let e = drained.remove(0);
            proof {
                assert(e == orig[k as int]);
                assert(drained@ =~= orig.skip(k as int + 1));
            }
            if (e.0 as i128) > cutoff_exec {
                self.entries.push(e);
            }
            proof {
                lemma_keep_recent_push(orig.take(k as int), orig[k as int], cutoff);
                assert(orig.take(k as int).push(orig[k as int]) =~= orig.take(k as int + 1));
                if orig[k as int].0 > cutoff {
                    assert(self.entries@ =~= keep_recent(orig.take(k as int), cutoff) + seq![
                        orig[k as int],
                    ]);
                } else {
                    assert(self.entries@ =~= keep_recent(orig.take(k as int), cutoff) + Seq::<
                        (i64, u64),
                    >::empty());
                }
            }
        }
        proof {
            assert(orig.take(orig.len() as int) =~= orig);
            assert(orig =~= old(self).entries_seq());
            lemma_sum_all_keep_recent(old(self).entries_seq(), cutoff);
            lemma_sum_recent_le_sum_all(old(self).entries_seq(), cutoff);
        }
        let total = self.sum_entries();
        if (total as u128) + (count as u128) <= self.limit as u128 {
            self.entries.push((now_ms, count));
            proof {
                lemma_keep_recent_push(
                    keep_recent(old(self).entries_seq(), cutoff),
                    (now_ms, count),
                    cutoff,
                );
            }
            true
        } else {
            false
        }
    }

    /// The total of the entries currently stored; after a prune this is the
    /// window's surviving sum.
    fn sum_entries(&self) -> (r: u64)
        requires
            self.wf(),
        ensures
            r == sum_all(self.entries_seq()),
    {
        let ghost s = self.entries_seq();
        let n = self.entries.len();
        let mut total: u64 = 0;
        let mut i: usize = 0;
        proof {
            assert(s.take(0) =~= Seq::<(i64, u64)>::empty());
            lemma_sum_take_bounds(s, 0);
        }
        while i < n
            invariant
                n == s.len(),
                s == self.entries_seq(),
                self.wf(),
                i <= n,
                total == sum_all(s.take(i as int)),
            decreases n - i,
        {
            proof {
                lemma_sum_take_bounds(s, i + 1);
                lemma_keep_recent_push(s.take(i as int), s[i as int], 0);
                assert(s.take(i as int).push(s[i as int]) =~= s.take(i + 1));
            }
            total = total + self.entries[i].1;
            i += 1;
        }
        proof {
            assert(s.take(n as int) =~= s);
        }
        total
    }

    /// The surviving count at `now_ms`, computed without touching the
    /// stored entries.
    pub fn current_count(&self, now_ms: i64) -> (r: u64)
        requires
            self.wf(),
        ensures
            r == sum_recent(
                self.entries_seq(),
                spec_cutoff(now_ms, self.spec_window_secs()),
            ),
    {
        let ghost s = self.entries_seq();
        let ghost cutoff = spec_cutoff(now_ms, self.window_secs);
        let cutoff_exec: i128 = (now_ms as i128) - (self.window_secs as i128) * 1000;
        let n = self.entries.len();
        let mut total: u64 = 0;
        let mut i: usize = 0;
        proof {
            assert(s.take(0) =~= Seq::<(i64, u64)>::empty());
        }
        while i < n
            invariant
                n == s.len(),
                s == self.entries_seq(),
                self.wf(),
                i <= n,
                cutoff == spec_cutoff(now_ms, self.spec_window_secs()),
                cutoff_exec == cutoff,
                total == sum_recent(s.take(i as int), cutoff),
            decreases n - i,
        {
            proof {
                lemma_keep_recent_push(s.take(i as int), s[i as int], cutoff);
                assert(s.take(i as int).push(s[i as int]) =~= s.take(i + 1));
                lemma_sum_recent_take_bounds(s, i + 1, cutoff);
            }
            if (self.entries[i].0 as i128) > cutoff_exec {
                total = total + self.entries[i].1;
            }
            i += 1;
        }
        proof {
            assert(s.take(n as int) =~= s);
        }
        total
    }
}

/// Prefix sums stay within the whole sum, which the limit bounds.
proof fn lemma_sum_take_bounds(s: Seq<(i64, u64)>, i: int)
    requires
        0 <= i <= s.len(),
    ensures
        0 <= sum_all(s.take(i)) <= sum_all(s),
    decreases s.len(),
{
    if s.len() > 0 {
        if i == 0 {
            assert(s.take(0) =~= Seq::<(i64, u64)>::empty());
            lemma_sum_take_bounds(s.drop_first(), 0);
        } else {
            assert(s.take(i).drop_first() =~= s.drop_first().take(i - 1));
            assert(s.take(i)[0] == s[0]);
            lemma_sum_take_bounds(s.drop_first(), i - 1);
        }
    } else {
        assert(s.take(i) =~= s);
    }
}

proof fn lemma_sum_recent_take_bounds(s: Seq<(i64, u64)>, i: int, cutoff: int)
    requires
        0 <= i <= s.len(),
    ensures
        0 <= sum_recent(s.take(i), cutoff) <= sum_all(s),
    decreases s.len(),
{
    if s.len() > 0 {
        if i == 0 {
            assert(s.take(0) =~= Seq::<(i64, u64)>::empty());
            lemma_sum_take_bounds(s, 0);
        } else {
            assert(s.take(i).drop_first() =~= s.drop_first().take(i - 1));
            assert(s.take(i)[0] == s[0]);
            lemma_sum_recent_take_bounds(s.drop_first(), i - 1, cutoff);
        }
    }
}

/// Usage of one key: bucket balance, window count, and the steady-state
/// allowance.
#[derive(Clone, Copy, Debug)]
pub struct RateLimitUsage {
    pub tokens_available: u64,
    pub window_count: u64,
    pub window_limit: u64,
}

/// The window count as whole percent of the allowance; zero when there is
/// no allowance, saturated at the largest representable value.
pub open spec fn spec_percent(count: u64, limit: u64) -> int {
    if limit == 0 {
        0
    } else if (count as int) * 100 / (limit as int) > u64::MAX {
        u64::MAX as int
    } else {
        (count as int) * 100 / (limit as int)
    }
}

impl RateLimitUsage {
    /// The window count as whole percent of the allowance; zero when there
    /// is no allowance. Saturates at the largest representable value.
    pub fn utilization_percent(&self) -> (r: u64)
        ensures
            r == spec_percent(self.window_count, self.window_limit),
    {
        if self.window_limit == 0 {
            return 0;
        }
        let scaled: u128 = (self.window_count as u128) * 100;
        let q: u128 = scaled / (self.window_limit as u128);
        if q > u64::MAX as u128 {
            u64::MAX
        } else {
            q as u64
        }
    }
}

/// The combined limiter: a global bucket, and a bucket and window per key,
/// created on first use.
pub struct RateLimiter {
    config: RateLimitConfig,
    buckets: KeyMap<TokenBucket>,
    windows: KeyMap<SlidingWindow>,
    global_bucket: TokenBucket,
}

impl RateLimiter {
    pub closed spec fn spec_config(&self) -> RateLimitConfig {
        self.config
    }

    pub closed spec fn buckets_map(&self) -> KeyMap<TokenBucket> {
        self.buckets
    }

    pub closed spec fn windows_map(&self) -> KeyMap<SlidingWindow> {
        self.windows
    }

    pub closed spec fn spec_global(&self) -> TokenBucket {
        self.global_bucket
    }

    pub open spec fn wf(&self) -> bool {
        &&& self.spec_config().wf()
        &&& self.buckets_map().wf()
        &&& self.windows_map().wf()
        &&& self.spec_global().capacity == self.spec_config().burst_capacity * 10
        &&& self.spec_global().refill_rate == self.spec_config().requests_per_second * 10
        &&& forall|i: int|
            0 <= i < self.buckets_map().entries_seq().len() ==> {
                let b = (#[trigger] self.buckets_map().entries_seq()[i]).1;
                b.capacity == self.spec_config().burst_capacity && b.refill_rate
                    == self.spec_config().requests_per_second
            }
        &&& forall|i: int|
            0 <= i < self.windows_map().entries_seq().len() ==> {
                let w = (#[trigger] self.windows_map().entries_seq()[i]).1;
                w.spec_window_secs() == self.spec_config().window_secs && w.spec_limit()
                    == spec_window_limit(self.spec_config()) && w.wf()
            }
    }

    /// A limiter with no per-key state yet; the global bucket holds ten
    /// times the burst capacity and refills at ten times the rate.
    pub fn new(config: RateLimitConfig, now_ms: i64) -> (r: Self)
        requires
            config.wf(),
        ensures
            r.wf(),
            r.spec_config() == config,
            r.buckets_map().num_entries() == 0,
            r.windows_map().num_entries() == 0,
            forall|k: Seq<char>| !r.buckets_map().contains_key(k),
            forall|k: Seq<char>| !r.windows_map().contains_key(k),
            r.spec_global().tokens == config.burst_capacity * 10,
    {
        let global_bucket = TokenBucket::new(
            config.burst_capacity * 10,
            config.requests_per_second * 10,
            now_ms,
        );
        RateLimiter { config, buckets: KeyMap::new(), windows: KeyMap::new(), global_bucket }
    }

    /// The bucket balance a key would see at `now_ms`.
    pub open spec fn spec_bucket_avail(&self, k: Seq<char>, now_ms: i64) -> int {
        if self.buckets_map().contains_key(k) {
            spec_refilled_tokens(self.buckets_map().val_of(k), now_ms)
        } else {
            self.spec_config().burst_capacity as int
        }
    }

    /// The window count a key would see at `now_ms`.
    pub open spec fn spec_window_used(&self, k: Seq<char>, now_ms: i64) -> int {
        if self.windows_map().contains_key(k) {
            sum_recent(
                self.windows_map().val_of(k).entries_seq(),
                spec_cutoff(now_ms, self.spec_config().window_secs),
            )
        } else {
            0
        }
    }

    /// Admit `count` requests under `key` exactly when the global bucket,
    /// the key's bucket and the key's window all have room; a refusal
    /// consumes nothing anywhere.
    pub fn acquire_n(&mut self, key: &str, count: u64, now_ms: i64) -> (r: Result<
        (),
        RateLimitError,
    >)
        requires
            old(self).wf(),
        ensures
            final(self).wf(),
            final(self).spec_config() == old(self).spec_config(),
            ({
                let c = old(self).spec_config();
                let g_avail = spec_refilled_tokens(old(self).spec_global(), now_ms);
                let b_avail = old(self).spec_bucket_avail(key@, now_ms);
                let w_used = old(self).spec_window_used(key@, now_ms);
                let g_ok = count <= g_avail;
                let b_ok = count <= b_avail;
                let w_ok = w_used + count <= spec_window_limit(c);
                &&& (r is Ok <==> g_ok && b_ok && w_ok)
                &&& (!g_ok ==> (r matches Err(e) && e matches RateLimitError::LimitExceeded {
                    key: k,
                    limit,
                    window_secs,
                } && k@ == "global"@ && limit == c.requests_per_second * 10 && window_secs == 1))
                &&& (g_ok && !b_ok ==> (r matches Err(e) && e
                    matches RateLimitError::LimitExceeded {
                    key: k,
                    limit,
                    window_secs,
                } && k@ == key@ && limit == c.requests_per_second && window_secs == 1))
                &&& (g_ok && b_ok && !w_ok ==> (r matches Err(e) && e
                    matches RateLimitError::LimitExceeded {
                    key: k,
                    limit,
                    window_secs,
                } && k@ == key@ && limit == spec_window_limit(c) && window_secs == c.window_secs))
                &&& (r is Ok ==> final(self).spec_global().tokens == g_avail - count)
                &&& (r is Err ==> final(self).spec_global() == old(self).spec_global())
                &&& final(self).buckets_map().contains_key(key@)
                &&& final(self).windows_map().contains_key(key@)
                &&& (r is Ok ==> final(self).buckets_map().val_of(key@).tokens == b_avail - count)
                &&& (r is Err ==> final(self).buckets_map().val_of(key@).tokens == (if old(self).buckets_map().contains_key(key@) {
                    old(self).buckets_map().val_of(key@).tokens as int
                } else {
                    c.burst_capacity as int
                }))
                &&& (r is Ok ==> final(self).windows_map().val_of(key@).entries_seq()
                    == keep_recent(
                    (if old(self).windows_map().contains_key(key@) {
                        old(self).windows_map().val_of(key@).entries_seq()
                    } else {
                        Seq::<(i64, u64)>::empty()
                    }),
                    spec_cutoff(now_ms, c.window_secs),
                ).push((now_ms, count)))
                &&& (r is Err ==> final(self).windows_map().val_of(key@).entries_seq() == (if old(self).windows_map().contains_key(key@) {
                    old(self).windows_map().val_of(key@).entries_seq()
                } else {
                    Seq::<(i64, u64)>::empty()
                }))
            }),
            forall|k2: Seq<char>|
                k2 != key@ ==> #[trigger] final(self).buckets_map().contains_key(k2) == old(self).buckets_map().contains_key(k2),
            forall|k2: Seq<char>|
                k2 != key@ && old(self).buckets_map().contains_key(k2) ==> #[trigger] final(self).buckets_map().val_of(k2) == old(self).buckets_map().val_of(k2),
            forall|k2: Seq<char>|
                k2 != key@ ==> #[trigger] final(self).windows_map().contains_key(k2) == old(self).windows_map().contains_key(k2),
            forall|k2: Seq<char>|
                k2 != key@ && old(self).windows_map().contains_key(k2) ==> #[trigger] final(self).windows_map().val_of(k2) == old(self).windows_map().val_of(k2),
    {
        let c = self.config;
        let mut bucket = match self.buckets.remove(key) {
            Some(b) => b,
            None => TokenBucket::new(c.burst_capacity, c.requests_per_second, now_ms),
        };
        let window_limit = if c.burst_capacity > c.requests_per_second * c.window_secs {
            c.burst_capacity
        } else {
            c.requests_per_second * c.window_secs
        };
        let mut window = match self.windows.remove(key) {
            Some(w) => w,
            None => SlidingWindow::new(c.window_secs, window_limit),
        };
        let g_avail = self.global_bucket.available(now_ms);
        let b_avail = bucket.available(now_ms);
        let w_used = window.current_count(now_ms);
        let result: Result<(), RateLimitError> = if count > g_avail {
            Err(
                RateLimitError::LimitExceeded {
                    key: String::from_str("global"),
                    limit: c.requests_per_second * 10,
                    window_secs: 1,
                },
            )
        } else if count > b_avail {
            Err(
                RateLimitError::LimitExceeded {
                    key: String::from_str(key),
                    limit: c.requests_per_second,
                    window_secs: 1,
                },
            )
        } else if (w_used as u128) + (count as u128) > (window_limit as u128) {
            Err(
                RateLimitError::LimitExceeded {
                    key: String::from_str(key),
                    limit: window_limit,
                    window_secs: c.window_secs,
                },
            )
        } else {
            let g_got = self.global_bucket.try_acquire(count, now_ms);
            let b_got = bucket.try_acquire(count, now_ms);
            let w_got = window.try_acquire(count, now_ms);
            proof {
                assert(g_got && b_got && w_got);
            }
            Ok(())
        };
        self.buckets.insert(String::from_str(key), bucket);
        self.windows.insert(String::from_str(key), window);
        result
    }

    /// Admit a single request under `key`: the same promise as `acquire_n`
    /// for a count of one.
    pub fn acquire(&mut self, key: &str, now_ms: i64) -> (r: Result<(), RateLimitError>)
        requires
            old(self).wf(),
        ensures
            final(self).wf(),
            final(self).spec_config() == old(self).spec_config(),
            ({
                let c = old(self).spec_config();
                let g_avail = spec_refilled_tokens(old(self).spec_global(), now_ms);
                let b_avail = old(self).spec_bucket_avail(key@, now_ms);
                let w_used = old(self).spec_window_used(key@, now_ms);
                let g_ok = 1 <= g_avail;
                let b_ok = 1 <= b_avail;
                let w_ok = w_used + 1 <= spec_window_limit(c);
                &&& (r is Ok <==> g_ok && b_ok && w_ok)
                &&& (!g_ok ==> (r matches Err(e) && e matches RateLimitError::LimitExceeded {
                    key: k,
                    limit,
                    window_secs,
                } && k@ == "global"@ && limit == c.requests_per_second * 10 && window_secs == 1))
                &&& (g_ok && !b_ok ==> (r matches Err(e) && e
                    matches RateLimitError::LimitExceeded {
                    key: k,
                    limit,
                    window_secs,
                } && k@ == key@ && limit == c.requests_per_second && window_secs == 1))
                &&& (g_ok && b_ok && !w_ok ==> (r matches Err(e) && e
                    matches RateLimitError::LimitExceeded {
                    key: k,
                    limit,
                    window_secs,
                } && k@ == key@ && limit == spec_window_limit(c) && window_secs == c.window_secs))
                &&& (r is Ok ==> final(self).spec_global().tokens == g_avail - 1)
                &&& (r is Err ==> final(self).spec_global() == old(self).spec_global())
                &&& final(self).buckets_map().contains_key(key@)
                &&& final(self).windows_map().contains_key(key@)
                &&& (r is Ok ==> final(self).buckets_map().val_of(key@).tokens == b_avail - 1)
                &&& (r is Err ==> final(self).buckets_map().val_of(key@).tokens == (if old(self).buckets_map().contains_key(key@) {
                    old(self).buckets_map().val_of(key@).tokens as int
                } else {
                    c.burst_capacity as int
                }))
                &&& (r is Ok ==> final(self).windows_map().val_of(key@).entries_seq()
                    == keep_recent(
                    (if old(self).windows_map().contains_key(key@) {
                        old(self).windows_map().val_of(key@).entries_seq()
                    } else {
                        Seq::<(i64, u64)>::empty()
                    }),
                    spec_cutoff(now_ms, c.window_secs),
                ).push((now_ms, 1)))
                &&& (r is Err ==> final(self).windows_map().val_of(key@).entries_seq() == (if old(self).windows_map().contains_key(key@) {
                    old(self).windows_map().val_of(key@).entries_seq()
                } else {
                    Seq::<(i64, u64)>::empty()
                }))
            }),
            forall|k2: Seq<char>|
                k2 != key@ ==> #[trigger] final(self).buckets_map().contains_key(k2) == old(self).buckets_map().contains_key(k2),
            forall|k2: Seq<char>|
                k2 != key@ && old(self).buckets_map().contains_key(k2) ==> #[trigger] final(self).buckets_map().val_of(k2) == old(self).buckets_map().val_of(k2),
            forall|k2: Seq<char>|
                k2 != key@ ==> #[trigger] final(self).windows_map().contains_key(k2) == old(self).windows_map().contains_key(k2),
            forall|k2: Seq<char>|
                k2 != key@ && old(self).windows_map().contains_key(k2) ==> #[trigger] final(self).windows_map().val_of(k2) == old(self).windows_map().val_of(k2),
    {
        self.acquire_n(key, 1, now_ms)
    }

    /// Whether a request under `key` would currently be admitted: a purely
    /// advisory look; nothing is consumed, and a key without state passes.
    pub fn check(&self, key: &str, now_ms: i64) -> (r: bool)
        requires
            self.wf(),
        ensures
            r == (spec_refilled_tokens(self.spec_global(), now_ms) > 0 && (
            self.buckets_map().contains_key(key@) ==> self.spec_bucket_avail(key@, now_ms) > 0) && (
            self.windows_map().contains_key(key@) ==> self.spec_window_used(key@, now_ms)
                < self.spec_config().requests_per_second * self.spec_config().window_secs)),
    {
        if self.global_bucket.available(now_ms) == 0 {
            return false;
        }
        match self.buckets.get(key) {
            Some(b) => {
                if b.available(now_ms) == 0 {
                    return false;
                }
            },
            None => {},
        }
        match self.windows.get(key) {
            Some(w) => {
                if w.current_count(now_ms) >= self.config.requests_per_second
                    * self.config.window_secs {
                    return false;
                }
            },
            None => {},
        }
        true
    }

    /// A key's bucket balance, window count and steady-state allowance.
    pub fn get_usage(&self, key: &str, now_ms: i64) -> (r: RateLimitUsage)
        requires
            self.wf(),
        ensures
            r.tokens_available == self.spec_bucket_avail(key@, now_ms),
            r.window_count == self.spec_window_used(key@, now_ms),
            r.window_limit == self.spec_config().requests_per_second
                * self.spec_config().window_secs,
    {
        let tokens_available = match self.buckets.get(key) {
            Some(b) => b.available(now_ms),
            None => self.config.burst_capacity,
        };
        let window_count = match self.windows.get(key) {
            Some(w) => w.current_count(now_ms),
            None => 0,
        };
        RateLimitUsage {
            tokens_available,
            window_count,
            window_limit: self.config.requests_per_second * self.config.window_secs,
        }
    }

    /// Forget a key's bucket and window.
    pub fn reset(&mut self, key: &str)
        requires
            old(self).wf(),
        ensures
            final(self).wf(),
            final(self).spec_config() == old(self).spec_config(),
            !final(self).buckets_map().contains_key(key@),
            !final(self).windows_map().contains_key(key@),
            forall|k2: Seq<char>|
                k2 != key@ ==> #[trigger] final(self).buckets_map().contains_key(k2) == old(self).buckets_map().contains_key(k2),
            forall|k2: Seq<char>|
                k2 != key@ ==> #[trigger] final(self).windows_map().contains_key(k2) == old(self).windows_map().contains_key(k2),
    {
        self.buckets.remove(key);
        self.windows.remove(key);
    }

    /// The keys whose buckets are empty right now, in map order.
    pub fn get_limited_keys(&self, now_ms: i64) -> (r: Vec<String>)
        requires
            self.wf(),
        ensures
            r.deep_view() == limited_ids(self.buckets_map().entries_seq(), now_ms),
    {
        let ghost es = self.buckets_map().entries_seq();
        let n = self.buckets.len();
        let mut out: Vec<String> = Vec::new();
        let mut i: usize = 0;
        proof {
            assert(es.take(0) =~= Seq::<(Seq<char>, TokenBucket)>::empty());
            assert(out.deep_view() =~= limited_ids(es.take(0), now_ms));
        }
        while i < n
            invariant
                self.wf(),
                es == self.buckets_map().entries_seq(),
                n == self.buckets_map().num_entries(),
                i <= n,
                out.deep_view() == limited_ids(es.take(i as int), now_ms),
            decreases n - i,
        {
            let empty = self.buckets.val_at(i).available(now_ms) == 0;
            let ghost prev = out.deep_view();
            if empty {
                out.push(self.buckets.key_at(i).clone());
            }
            proof {
                lemma_limited_ids_push(es.take(i as int), es[i as int], now_ms);
                assert(es.take(i as int).push(es[i as int]) =~= es.take(i + 1));
                if empty {
                    assert(out.deep_view() =~= prev + seq![es[i as int].0]);
                } else {
                    assert(out.deep_view() =~= prev + Seq::<Seq<char>>::empty());
                }
            }
            i += 1;
        }
        proof {
            assert(es.take(n as int) =~= es);
        }
        out
    }
}

/// The keys among `s` whose buckets have nothing available at `now_ms`.
pub open spec fn limited_ids(s: Seq<(Seq<char>, TokenBucket)>, now_ms: i64) -> Seq<Seq<char>>
    decreases s.len(),
{
    if s.len() == 0 {
        Seq::empty()
    } else {
        (if spec_refilled_tokens(s[0].1, now_ms) == 0 {
            seq![s[0].0]
        } else {
            Seq::empty()
        }) + limited_ids(s.drop_first(), now_ms)
    }
}

proof fn lemma_limited_ids_push(
    s: Seq<(Seq<char>, TokenBucket)>,
    x: (Seq<char>, TokenBucket),
    now_ms: i64,
)
    ensures
        limited_ids(s.push(x), now_ms) == limited_ids(s, now_ms) + (if spec_refilled_tokens(
            x.1,
            now_ms,
        ) == 0 {
            seq![x.0]
        } else {
            Seq::<Seq<char>>::empty()
        }),
    decreases s.len(),
{
    let tail = if spec_refilled_tokens(x.1, now_ms) == 0 {
        seq![x.0]
    } else {
        Seq::<Seq<char>>::empty()
    };
    if s.len() == 0 {
        assert(s.push(x)[0] == x);
        assert(s.push(x).drop_first() =~= Seq::<(Seq<char>, TokenBucket)>::empty());
        assert(limited_ids(Seq::<(Seq<char>, TokenBucket)>::empty(), now_ms) == Seq::<
            Seq<char>,
        >::empty());
        assert(limited_ids(s.push(x), now_ms) =~= tail);
        assert(limited_ids(s, now_ms) + tail =~= tail);
    } else {
        assert(s.push(x).drop_first() =~= s.drop_first().push(x));
        lemma_limited_ids_push(s.drop_first(), x, now_ms);
        let head = if spec_refilled_tokens(s[0].1, now_ms) == 0 {
            seq![s[0].0]
        } else {
            Seq::<Seq<char>>::empty()
        };
        assert(s.push(x)[0] == s[0]);
        assert(limited_ids(s.push(x), now_ms) == head + (limited_ids(s.drop_first(), now_ms)
            + tail));
        assert(head + (limited_ids(s.drop_first(), now_ms) + tail) =~= (head + limited_ids(
            s.drop_first(),
            now_ms,
        )) + tail);
    }
}

} // verus!
