//! Priority scheduling: queued requests leave in order of an effective
//! priority that blends the static priority band with deadline proximity.
//!
//! A deadline of zero means "unset" and never expires or boosts, as does
//! the sentinel `i64::MAX`; anything else boosts the request as the
//! deadline comes near, and marks it expired once the deadline has passed.

use vstd::prelude::*;

verus! {

use crate::protocol::AiMessage;
use crate::protocol::clone_message;

/// The coarse priority bands of the 0 to 100 priority range.
#[derive(Clone, Copy, PartialEq, Eq, Structural, Debug)]
pub enum PriorityLevel {
    Low,
    Normal,
    High,
    Critical,
}

/// The band a numeric priority falls in; everything above 75, and every
/// value outside the range, counts as critical.
pub open spec fn spec_level_of(priority: i32) -> PriorityLevel {
    if 0 <= priority <= 25 {
        PriorityLevel::Low
    } else if 26 <= priority <= 50 {
        PriorityLevel::Normal
    } else if 51 <= priority <= 75 {
        PriorityLevel::High
    } else {
        PriorityLevel::Critical
    }
}

impl PriorityLevel {
    pub open spec fn spec_rank(self) -> int {
        match self {
            PriorityLevel::Low => 0,
            PriorityLevel::Normal => 1,
            PriorityLevel::High => 2,
            PriorityLevel::Critical => 3,
        }
    }

    /// The band's position, low to critical.
    pub fn rank(&self) -> (r: u8)
        ensures
            r == self.spec_rank(),
    {
        match self {
            PriorityLevel::Low => 0,
            PriorityLevel::Normal => 1,
            PriorityLevel::High => 2,
            PriorityLevel::Critical => 3,
        }
    }

    /// The band of a numeric priority.
    pub fn from_priority(priority: i32) -> (r: Self)
        ensures
            r == spec_level_of(priority),
    {
        if 0 <= priority && priority <= 25 {
            PriorityLevel::Low
        } else if 26 <= priority && priority <= 50 {
            PriorityLevel::Normal
        } else if 51 <= priority && priority <= 75 {
            PriorityLevel::High
        } else {
            PriorityLevel::Critical
        }
    }
}

impl From<i32> for PriorityLevel {
    /// The band of a numeric priority.
    fn from(priority: i32) -> (r: Self) {
        PriorityLevel::from_priority(priority)
    }
}

impl vstd::std_specs::convert::FromSpecImpl<i32> for PriorityLevel {
    open spec fn obeys_from_spec() -> bool {
        true
    }

    open spec fn from_spec(priority: i32) -> Self {
        spec_level_of(priority)
    }
}

/// A queued request with its derived band and enqueue time.
pub struct PrioritizedMessage {
    pub message: AiMessage,
    pub priority_level: PriorityLevel,
    pub enqueued_at: i64,
    pub deadline_ms: i64,
}

/// Whether a queued request's deadline has passed; zero and the sentinel
/// never expire.
pub open spec fn spec_pm_expired(pm: PrioritizedMessage, now_ms: i64) -> bool {
    pm.deadline_ms != 0 && pm.deadline_ms != i64::MAX && pm.deadline_ms < now_ms
}

/// The deadline boost: the closer the deadline, the larger; absent (zero or
/// sentinel) deadlines add nothing.
pub open spec fn spec_boost(deadline_ms: i64, now_ms: i64) -> int {
    if deadline_ms == 0 || deadline_ms == i64::MAX {
        0
    } else {
        let left = deadline_ms - now_ms;
        if left < 1000 {
            500
        } else if left < 5000 {
            200
        } else if left < 10000 {
            100
        } else {
            0
        }
    }
}

/// The effective priority: a thousand per band rank, plus the boost.
/// Higher wins.
pub open spec fn spec_effective(pm: PrioritizedMessage, now_ms: i64) -> int {
    pm.priority_level.spec_rank() * 1000 + spec_boost(pm.deadline_ms, now_ms)
}

/// Two queued requests with the same mathematical content.
pub open spec fn pm_like(a: PrioritizedMessage, b: PrioritizedMessage) -> bool {
    &&& a.message@ == b.message@
    &&& a.priority_level == b.priority_level
    &&& a.enqueued_at == b.enqueued_at
    &&& a.deadline_ms == b.deadline_ms
}

impl PrioritizedMessage {
    /// Wrap a message for the queue; `now_ns` stamps the enqueue time.
    pub fn new(message: AiMessage, now_ns: i64) -> (r: Self)
        ensures
            r.message == message,
            r.priority_level == spec_level_of(message.priority),
            r.enqueued_at == now_ns,
            r.deadline_ms == message.deadline_ms,
    {
        let priority_level = PriorityLevel::from_priority(message.priority);
        let deadline_ms = message.deadline_ms;
        PrioritizedMessage { message, priority_level, enqueued_at: now_ns, deadline_ms }
    }

    /// Milliseconds until the deadline; negative once it has passed.
    pub fn time_until_deadline(&self, now_ms: i64) -> (r: i64)
        requires
            0 <= now_ms,
            0 <= self.deadline_ms,
        ensures
            r == self.deadline_ms - now_ms,
    {
        self.deadline_ms - now_ms
    }

    /// Whether the deadline has passed; zero and the sentinel never do.
    pub fn is_expired(&self, now_ms: i64) -> (r: bool)
        ensures
            r == spec_pm_expired(*self, now_ms),
    {
        if self.deadline_ms == 0 || self.deadline_ms == i64::MAX {
            return false;
        }
        self.deadline_ms < now_ms
    }

    /// The effective priority at time `now_ms`.
    pub fn effective_priority(&self, now_ms: i64) -> (r: i64)
        ensures
            r == spec_effective(*self, now_ms),
    {
        let base: i64 = (self.priority_level.rank() as i64) * 1000;
        let boost: i64 = if self.deadline_ms == 0 || self.deadline_ms == i64::MAX {
            0
        } else {
            let left: i128 = (self.deadline_ms as i128) - (now_ms as i128);
            if left < 1000 {
                500
            } else if left < 5000 {
                200
            } else if left < 10000 {
                100
            } else {
                0
            }
        };
        base + boost
    }
}

/// Faults raised by the queue.
#[derive(Debug)]
pub enum QueueError {
    Full,
    Closed,
}

/// Queue configuration.
#[derive(Clone, Copy, Debug)]
pub struct PriorityQueueConfig {
    pub max_size: usize,
    pub deadline_aware: bool,
    pub drop_expired: bool,
}

impl Default for PriorityQueueConfig {
    fn default() -> (r: Self)
        ensures
            r.max_size == 100000,
            r.deadline_aware,
            r.drop_expired,
    {
        PriorityQueueConfig { max_size: 100000, deadline_aware: true, drop_expired: true }
    }
}

/// Counts per band, with how many entries have expired.
#[derive(Clone, Copy, Debug)]
pub struct QueueStats {
    pub total: usize,
    pub critical: usize,
    pub high: usize,
    pub normal: usize,
    pub low: usize,
    pub expired: usize,
}

/// The entries of `s` that have not expired, in order.
pub open spec fn keep_live(s: Seq<PrioritizedMessage>, now_ms: i64) -> Seq<PrioritizedMessage>
    decreases s.len(),
{
    if s.len() == 0 {
        Seq::empty()
    } else {
        (if spec_pm_expired(s[0], now_ms) {
            Seq::empty()
        } else {
            seq![s[0]]
        }) + keep_live(s.drop_first(), now_ms)
    }
}

proof fn lemma_keep_live_push(s: Seq<PrioritizedMessage>, x: PrioritizedMessage, now_ms: i64)
    ensures
        keep_live(s.push(x), now_ms) == keep_live(s, now_ms) + (if spec_pm_expired(x, now_ms) {
            Seq::<PrioritizedMessage>::empty()
        } else {
            seq![x]
        }),
    decreases s.len(),
{
    let tail = if spec_pm_expired(x, now_ms) {
        Seq::<PrioritizedMessage>::empty()
    } else {
        seq![x]
    };
    if s.len() == 0 {
        assert(s.push(x)[0] == x);
        assert(s.push(x).drop_first() =~= Seq::<PrioritizedMessage>::empty());
        assert(keep_live(Seq::<PrioritizedMessage>::empty(), now_ms) == Seq::<
            PrioritizedMessage,
        >::empty());
        assert(keep_live(s.push(x), now_ms) =~= tail);
        assert(keep_live(s, now_ms) + tail =~= tail);
    } else {
        assert(s.push(x).drop_first() =~= s.drop_first().push(x));
        lemma_keep_live_push(s.drop_first(), x, now_ms);
        let head = if spec_pm_expired(s[0], now_ms) {
            Seq::<PrioritizedMessage>::empty()
        } else {
            seq![s[0]]
        };
        assert(s.push(x)[0] == s[0]);
        assert(keep_live(s.push(x), now_ms) == head + (keep_live(s.drop_first(), now_ms) + tail));
        assert(head + (keep_live(s.drop_first(), now_ms) + tail) =~= (head + keep_live(
            s.drop_first(),
            now_ms,
        )) + tail);
    }
}

/// Whatever survives the cull has not expired.
proof fn lemma_keep_live_all_live(s: Seq<PrioritizedMessage>, now_ms: i64)
    ensures
        forall|i: int|
            0 <= i < keep_live(s, now_ms).len() ==> !spec_pm_expired(
                #[trigger] keep_live(s, now_ms)[i],
                now_ms,
            ),
    decreases s.len(),
{
    if s.len() > 0 {
        lemma_keep_live_all_live(s.drop_first(), now_ms);
        assert forall|i: int|
            0 <= i < keep_live(s, now_ms).len() implies !spec_pm_expired(
            #[trigger] keep_live(s, now_ms)[i],
            now_ms,
        ) by {
            if !spec_pm_expired(s[0], now_ms) {
                if i > 0 {
                    assert(keep_live(s, now_ms)[i] == keep_live(s.drop_first(), now_ms)[i - 1]);
                }
            } else {
                assert(keep_live(s, now_ms)[i] == keep_live(s.drop_first(), now_ms)[i]);
            }
        }
    }
}

/// How many entries of `s` fall in band `lvl`.
pub open spec fn count_level(s: Seq<PrioritizedMessage>, lvl: PriorityLevel) -> nat
    decreases s.len(),
{
    if s.len() == 0 {
        0
    } else {
        (if s[0].priority_level == lvl {
            1nat
        } else {
            0nat
        }) + count_level(s.drop_first(), lvl)
    }
}

proof fn lemma_count_level_push(s: Seq<PrioritizedMessage>, x: PrioritizedMessage, lvl: PriorityLevel)
    ensures
        count_level(s.push(x), lvl) == count_level(s, lvl) + (if x.priority_level == lvl {
            1nat
        } else {
            0nat
        }),
    decreases s.len(),
{
    if s.len() == 0 {
        assert(s.push(x)[0] == x);
        assert(s.push(x).drop_first() =~= Seq::<PrioritizedMessage>::empty());
        assert(count_level(Seq::<PrioritizedMessage>::empty(), lvl) == 0);
    } else {
        assert(s.push(x).drop_first() =~= s.drop_first().push(x));
        lemma_count_level_push(s.drop_first(), x, lvl);
        assert(s.push(x)[0] == s[0]);
    }
}

/// How many entries of `s` have expired at `now_ms`.
pub open spec fn count_expired(s: Seq<PrioritizedMessage>, now_ms: i64) -> nat
    decreases s.len(),
{
    if s.len() == 0 {
        0
    } else {
        (if spec_pm_expired(s[0], now_ms) {
            1nat
        } else {
            0nat
        }) + count_expired(s.drop_first(), now_ms)
    }
}

proof fn lemma_count_expired_push(s: Seq<PrioritizedMessage>, x: PrioritizedMessage, now_ms: i64)
    ensures
        count_expired(s.push(x), now_ms) == count_expired(s, now_ms) + (if spec_pm_expired(
            x,
            now_ms,
        ) {
            1nat
        } else {
            0nat
        }),
    decreases s.len(),
{
    if s.len() == 0 {
        assert(s.push(x)[0] == x);
        assert(s.push(x).drop_first() =~= Seq::<PrioritizedMessage>::empty());
        assert(count_expired(Seq::<PrioritizedMessage>::empty(), now_ms) == 0);
    } else {
        assert(s.push(x).drop_first() =~= s.drop_first().push(x));
        lemma_count_expired_push(s.drop_first(), x, now_ms);
        assert(s.push(x)[0] == s[0]);
    }
}

/// The queue: requests ordered lazily by effective priority, which depends
/// on the current time.
pub struct PriorityQueue {
    items: Vec<PrioritizedMessage>,
    config: PriorityQueueConfig,
}

impl PriorityQueue {
    pub closed spec fn items_seq(&self) -> Seq<PrioritizedMessage> {
        self.items@
    }

    pub closed spec fn spec_queue_config(&self) -> PriorityQueueConfig {
        self.config
    }

    pub fn new(config: PriorityQueueConfig) -> (r: Self)
        ensures
            r.items_seq().len() == 0,
            r.spec_queue_config() == config,
    {
        PriorityQueue { items: Vec::new(), config }
    }

    /// Enqueue a message, refusing when the queue is at its size cap.
    pub fn push(&mut self, message: AiMessage, now_ns: i64) -> (r: Result<(), QueueError>)
        ensures
            final(self).spec_queue_config() == old(self).spec_queue_config(),
            old(self).items_seq().len() >= old(self).spec_queue_config().max_size ==> (r matches
                Err(e) && e matches QueueError::Full && final(self).items_seq() == old(
                self,
            ).items_seq()),
            old(self).items_seq().len() < old(self).spec_queue_config().max_size ==> (r is Ok && {
                let s = final(self).items_seq();
                &&& s.len() == old(self).items_seq().len() + 1
                &&& s.take(old(self).items_seq().len() as int) == old(self).items_seq()
                &&& s.last().message == message
                &&& s.last().priority_level == spec_level_of(message.priority)
                &&& s.last().enqueued_at == now_ns
                &&& s.last().deadline_ms == message.deadline_ms
            }),
    {
        if self.items.len() >= self.config.max_size {
            return Err(QueueError::Full);
        }
        let pm = PrioritizedMessage::new(message, now_ns);
        self.items.push(pm);
        proof {
            assert(self.items@.take(old(self).items_seq().len() as int) =~= old(
                self,
            ).items_seq());
        }
        Ok(())
    }

    /// The position of an entry no other entry beats at time `now_ms`.
    fn find_max(&self, now_ms: i64) -> (r: Option<usize>)
        ensures
            match r {
                Some(i) => {
                    &&& i < self.items_seq().len()
                    &&& forall|j: int|
                        0 <= j < self.items_seq().len() ==> spec_effective(
                            self.items_seq()[i as int],
                            now_ms,
                        ) >= spec_effective(#[trigger] self.items_seq()[j], now_ms)
                },
                None => self.items_seq().len() == 0,
            },
    {
        let n = self.items.len();
        if n == 0 {
            return None;
        }
        let mut best: usize = 0;
        let mut best_eff: i64 = self.items[0].effective_priority(now_ms);
        let mut i: usize = 1;
        while i < n
            invariant
                n == self.items_seq().len(),
                1 <= i <= n,
                best < i,
                best_eff == spec_effective(self.items_seq()[best as int], now_ms),
                forall|j: int|
                    0 <= j < i ==> best_eff >= spec_effective(
                        #[trigger] self.items_seq()[j],
                        now_ms,
                    ),
            decreases n - i,
        {
            let e = self.items[i].effective_priority(now_ms);
            if e > best_eff {
                best = i;
                best_eff = e;
            }
            i += 1;
        }
        Some(best)
    }

    /// What dequeuing promises: over the live entries (all entries, when
    /// expiry culling is off), the queue either was empty, or hands out an
    /// unexpired entry that no live entry beats and removes exactly it.
    pub open spec fn pop_post(
        pre: PriorityQueue,
        post: PriorityQueue,
        r: Option<PrioritizedMessage>,
        now_ms: i64,
    ) -> bool {
        let live = if pre.spec_queue_config().drop_expired {
            keep_live(pre.items_seq(), now_ms)
        } else {
            pre.items_seq()
        };
        &&& post.spec_queue_config() == pre.spec_queue_config()
        &&& (live.len() == 0 ==> (r is None && post.items_seq() == live))
        &&& (live.len() > 0 ==> (r is Some && Self::pop_yields(
            pre,
            post,
            r->Some_0,
            now_ms,
            live,
        )))
    }

    /// The dequeued entry is unexpired (under culling), beats every live
    /// entry, and is the one entry the queue lost.
    pub open spec fn pop_yields(
        pre: PriorityQueue,
        post: PriorityQueue,
        m: PrioritizedMessage,
        now_ms: i64,
        live: Seq<PrioritizedMessage>,
    ) -> bool {
        &&& (pre.spec_queue_config().drop_expired ==> !spec_pm_expired(m, now_ms))
        &&& forall|j: int|
            0 <= j < live.len() ==> spec_effective(m, now_ms) >= spec_effective(
                #[trigger] live[j],
                now_ms,
            )
        &&& exists|i: int|
            0 <= i < live.len() && #[trigger] live[i] == m && post.items_seq() == live.remove(i)
    }

    /// Dequeue the entry with the highest effective priority. With expiry
    /// culling on, every expired entry leaves first, so an expired request
    /// is never returned.
    pub fn pop(&mut self, now_ms: i64) -> (r: Option<PrioritizedMessage>)
        ensures
            Self::pop_post(*old(self), *final(self), r, now_ms),
    {
        if self.config.drop_expired {
            let mut drained = self.items.split_off(0);
            let ghost orig = drained@;
            proof {
                assert(self.items@ =~= keep_live(orig.take(0), now_ms));
                assert(drained@ =~= orig.skip(0));
            }
            while drained.len() > 0
                invariant
                    drained@.len() <= orig.len(),
                    drained@ == orig.skip(orig.len() - drained@.len()),
                    self.items@ == keep_live(
                        orig.take(orig.len() - drained@.len()),
                        now_ms,
                    ),
                    self.config == old(self).spec_queue_config(),
                decreases drained@.len(),
            {
                let ghost k = orig.len() - drained@.len();
                let pm = drained.remove(0);
                proof {
                    assert(pm == orig[k as int]);
                    assert(drained@ =~= orig.skip(k as int + 1));
                }
                let live = !pm.is_expired(now_ms);
                if live {
                    self.items.push(pm);
                }
                proof {
                    lemma_keep_live_push(orig.take(k as int), orig[k as int], now_ms);
                    assert(orig.take(k as int).push(orig[k as int]) =~= orig.take(k as int + 1));
                    if spec_pm_expired(orig[k as int], now_ms) {
                        assert(self.items@ =~= keep_live(orig.take(k as int), now_ms) + Seq::<
                            PrioritizedMessage,
                        >::empty());
                    } else {
                        assert(self.items@ =~= keep_live(orig.take(k as int), now_ms) + seq![
                            orig[k as int],
                        ]);
                    }
                }
            }
            proof {
                assert(orig.take(orig.len() as int) =~= orig);
                assert(orig =~= old(self).items_seq());
                assert(self.items@ == keep_live(old(self).items_seq(), now_ms));
            }
        }
        let best = match self.find_max(now_ms) {
            Some(i) => i,
            None => { return None },
        };
        let m = self.items.remove(best);
        proof {
            let live = if old(self).spec_queue_config().drop_expired {
                keep_live(old(self).items_seq(), now_ms)
            } else {
                old(self).items_seq()
            };
            assert(live[best as int] == m);
            assert(self.items@ == live.remove(best as int));
            if old(self).spec_queue_config().drop_expired {
                lemma_keep_live_all_live(old(self).items_seq(), now_ms);
            }
            assert(0 <= best < live.len() && live[best as int] == m && self.items@ == live.remove(
                best as int,
            ));
            assert(self.spec_queue_config() == old(self).spec_queue_config());
            assert(live.len() > 0);
            assert(forall|j: int|
                0 <= j < live.len() ==> spec_effective(m, now_ms) >= spec_effective(
                    #[trigger] live[j],
                    now_ms,
                ));
            assert(exists|i: int|
                0 <= i < live.len() && #[trigger] live[i] == m && self.items_seq() == live.remove(
                    i,
                ));
            assert(Self::pop_post(*old(self), *self, Some(m), now_ms));
        }
        Some(m)
    }

    /// The entry `pop` would return, copied, without removing it; the queue
    /// is left as it is, expired entries included.
    pub fn peek(&self, now_ms: i64) -> (r: Option<PrioritizedMessage>)
        ensures
            self.items_seq().len() == 0 ==> r is None,
            self.items_seq().len() > 0 ==> (r matches Some(m) && exists|i: int|
                0 <= i < self.items_seq().len() && pm_like(m, #[trigger] self.items_seq()[i])
                && forall|j: int|
                    0 <= j < self.items_seq().len() ==> spec_effective(m, now_ms) >= spec_effective(
                        #[trigger] self.items_seq()[j],
                        now_ms,
                    )),
    {
        let best = match self.find_max(now_ms) {
            Some(i) => i,
            None => { return None },
        };
        let src = &self.items[best];
        let copy = PrioritizedMessage {
            message: clone_message(&src.message),
            priority_level: src.priority_level,
            enqueued_at: src.enqueued_at,
            deadline_ms: src.deadline_ms,
        };
        proof {
            assert(pm_like(copy, self.items_seq()[best as int]));
        }
        Some(copy)
    }

    pub fn len(&self) -> (r: usize)
        ensures
            r == self.items_seq().len(),
    {
        self.items.len()
    }

    pub fn is_empty(&self) -> (r: bool)
        ensures
            r == (self.items_seq().len() == 0),
    {
        self.items.len() == 0
    }

    /// Drop everything queued.
    pub fn clear(&mut self)
        ensures
            final(self).items_seq().len() == 0,
            final(self).spec_queue_config() == old(self).spec_queue_config(),
    {
        self.items.clear();
    }

    /// Counts per band and how many entries have expired at `now_ms`.
    pub fn stats(&self, now_ms: i64) -> (r: QueueStats)
        ensures
            r.total == self.items_seq().len(),
            r.low == count_level(self.items_seq(), PriorityLevel::Low),
            r.normal == count_level(self.items_seq(), PriorityLevel::Normal),
            r.high == count_level(self.items_seq(), PriorityLevel::High),
            r.critical == count_level(self.items_seq(), PriorityLevel::Critical),
            r.expired == count_expired(self.items_seq(), now_ms),
    {
        let ghost s = self.items_seq();
        let n = self.items.len();
        let mut low: usize = 0;
        let mut normal: usize = 0;
        let mut high: usize = 0;
        let mut critical: usize = 0;
        let mut expired: usize = 0;
        let mut i: usize = 0;
        proof {
            assert(s.take(0) =~= Seq::<PrioritizedMessage>::empty());
        }
        while i < n
            invariant
                n == s.len(),
                s == self.items_seq(),
                i <= n,
                low == count_level(s.take(i as int), PriorityLevel::Low),
                normal == count_level(s.take(i as int), PriorityLevel::Normal),
                high == count_level(s.take(i as int), PriorityLevel::High),
                critical == count_level(s.take(i as int), PriorityLevel::Critical),
                expired == count_expired(s.take(i as int), now_ms),
                low <= i && normal <= i && high <= i && critical <= i && expired <= i,
            decreases n - i,
        {
            match self.items[i].priority_level {
                PriorityLevel::Low => {
                    low = low + 1;
                },
                PriorityLevel::Normal => {
                    normal = normal + 1;
                },
                PriorityLevel::High => {
                    high = high + 1;
                },
                PriorityLevel::Critical => {
                    critical = critical + 1;
                },
            }
            if self.items[i].is_expired(now_ms) {
                expired = expired + 1;
            }
            proof {
                lemma_count_level_push(s.take(i as int), s[i as int], PriorityLevel::Low);
                lemma_count_level_push(s.take(i as int), s[i as int], PriorityLevel::Normal);
                lemma_count_level_push(s.take(i as int), s[i as int], PriorityLevel::High);
                lemma_count_level_push(s.take(i as int), s[i as int], PriorityLevel::Critical);
                lemma_count_expired_push(s.take(i as int), s[i as int], now_ms);
                assert(s.take(i as int).push(s[i as int]) =~= s.take(i + 1));
            }
            i += 1;
        }
        proof {
            assert(s.take(n as int) =~= s);
        }
        QueueStats { total: n, critical, high, normal, low, expired }
    }
}

} // verus!
