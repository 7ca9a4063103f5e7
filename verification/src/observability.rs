//! Observability: counters, latency histograms and per-agent tallies.
//!
//! Histograms keep their samples sorted, so percentile reads are a direct
//! index. All counters saturate instead of wrapping.

use vstd::prelude::*;

verus! {

use vstd::string::StringExecFns;
use crate::keymap::KeyMap;

/// The kinds of metric the layer can expose.
#[derive(Clone, Copy, PartialEq, Eq, Structural, Debug)]
pub enum MetricType {
    Counter,
    Gauge,
    Histogram,
}

/// A histogram summary: count, sum, extremes and percentiles.
#[derive(Clone, Copy, Debug)]
pub struct MetricValue {
    pub count: u64,
    pub sum: u128,
    pub min: u64,
    pub max: u64,
    pub p50: u64,
    pub p99: u64,
    pub p999: u64,
}

impl Default for MetricValue {
    fn default() -> (r: Self)
        ensures
            r == spec_empty_metric(),
    {
        MetricValue { count: 0, sum: 0, min: 0, max: 0, p50: 0, p99: 0, p999: 0 }
    }
}

pub open spec fn spec_empty_metric() -> MetricValue {
    MetricValue { count: 0, sum: 0, min: 0, max: 0, p50: 0, p99: 0, p999: 0 }
}

/// The sum of a sequence of samples.
pub open spec fn spec_sum(s: Seq<u64>) -> int
    decreases s.len(),
{
    if s.len() == 0 {
        0
    } else {
        s[0] + spec_sum(s.drop_first())
    }
}

proof fn lemma_spec_sum_push(s: Seq<u64>, x: u64)
    ensures
        spec_sum(s.push(x)) == spec_sum(s) + x,
    decreases s.len(),
{
    if s.len() == 0 {
        assert(s.push(x)[0] == x);
        assert(s.push(x).drop_first() =~= Seq::<u64>::empty());
        assert(spec_sum(Seq::<u64>::empty()) == 0);
    } else {
        assert(s.push(x).drop_first() =~= s.drop_first().push(x));
        lemma_spec_sum_push(s.drop_first(), x);
        assert(s.push(x)[0] == s[0]);
    }
}

proof fn lemma_spec_sum_bound(s: Seq<u64>)
    ensures
        0 <= spec_sum(s) <= s.len() * (u64::MAX as int),
    decreases s.len(),
{
    if s.len() > 0 {
        lemma_spec_sum_bound(s.drop_first());
        assert((s.len() - 1) * (u64::MAX as int) + (u64::MAX as int) == s.len() * (
        u64::MAX as int)) by (nonlinear_arith);
    }
}

/// What a snapshot reports of a histogram: count, sum, extremes, and the
/// percentile samples at the half, ninety-nine hundredths and
/// nine-hundred-ninety-nine thousandths positions.
pub open spec fn spec_snapshot_ok(h: Histogram, r: MetricValue) -> bool {
    &&& (h.samples().len() == 0 ==> r == spec_empty_metric())
    &&& (h.samples().len() > 0 ==> {
        let s = h.samples();
        let n = s.len() as int;
        &&& r.count == n
        &&& r.sum == spec_sum(s)
        &&& r.min == s[0]
        &&& r.max == s[n - 1]
        &&& r.p50 == s[n / 2]
        &&& r.p99 == s[if n * 99 / 100 < n - 1 {
            n * 99 / 100
        } else {
            n - 1
        }]
        &&& r.p999 == s[if n * 999 / 1000 < n - 1 {
            n * 999 / 1000
        } else {
            n - 1
        }]
    })
}

/// A sequence that is sorted ascending.
pub open spec fn spec_sorted(s: Seq<u64>) -> bool {
    forall|i: int, j: int| 0 <= i < j < s.len() ==> #[trigger] s[i] <= #[trigger] s[j]
}

/// A latency histogram: its samples, kept sorted.
pub struct Histogram {
    values: Vec<u64>,
}

impl Histogram {
    pub closed spec fn samples(&self) -> Seq<u64> {
        self.values@
    }

    pub open spec fn wf(&self) -> bool {
        spec_sorted(self.samples())
    }

    pub fn new() -> (r: Self)
        ensures
            r.wf(),
            r.samples().len() == 0,
    {
        Histogram { values: Vec::new() }
    }

    /// Record one sample, keeping the samples sorted; the recorded multiset
    /// grows by exactly this sample.
    pub fn record(&mut self, value: u64)
        requires
            old(self).wf(),
        ensures
            final(self).wf(),
            final(self).samples().len() == old(self).samples().len() + 1,
            exists|i: int|
                0 <= i <= old(self).samples().len() && final(self).samples() == #[trigger] old(
                    self,
                ).samples().insert(i, value),
    {
        let n = self.values.len();
        let mut i: usize = 0;
        while i < n && self.values[i] <= value
            invariant
                self.wf(),
                n == self.samples().len(),
                i <= n,
                forall|j: int| 0 <= j < i ==> #[trigger] self.samples()[j] <= value,
            decreases n - i,
        {
            i += 1;
        }
        let ghost pre = self.values@;
        self.values.insert(i, value);
        proof {
            assert forall|a: int, b: int|
                0 <= a < b < self.values@.len() implies #[trigger] self.values@[a]
                <= #[trigger] self.values@[b] by {
                if b < i {
                    assert(self.values@[a] == pre[a]);
                    assert(self.values@[b] == pre[b]);
                } else if a > i {
                    assert(self.values@[a] == pre[a - 1]);
                    assert(self.values@[b] == pre[b - 1]);
                } else if a < i && b == i {
                    assert(self.values@[a] == pre[a]);
                } else if a == i && b > i {
                    assert(self.values@[b] == pre[b - 1]);
                } else if a < i && b > i {
                    assert(self.values@[a] == pre[a]);
                    assert(self.values@[b] == pre[b - 1]);
                }
            }
        }
    }

    /// The summary of the recorded samples: count, sum, extremes, and the
    /// percentile samples at the half, ninety-nine hundredths and
    /// nine-hundred-ninety-nine thousandths positions.
    pub fn snapshot(&self) -> (r: MetricValue)
        requires
            self.wf(),
        ensures
            spec_snapshot_ok(*self, r),
    {
        let n = self.values.len();
        if n == 0 {
            return MetricValue::default();
        }
        let ghost s = self.samples();
        let mut sum: u128 = 0;
        let mut i: usize = 0;
        proof {
            assert(s.take(0) =~= Seq::<u64>::empty());
            lemma_spec_sum_bound(s);
        }
        while i < n
            invariant
                self.wf(),
                s == self.samples(),
                n == s.len(),
                i <= n,
                sum == spec_sum(s.take(i as int)),
                sum <= (i as int) * (u64::MAX as int),
            decreases n - i,
        {
            proof {
                lemma_spec_sum_push(s.take(i as int), s[i as int]);
                assert(s.take(i as int).push(s[i as int]) =~= s.take(i + 1));
                assert((i as int) * (u64::MAX as int) + (u64::MAX as int) == (i + 1) * (
                u64::MAX as int)) by (nonlinear_arith);
                assert((i + 1) * (u64::MAX as int) <= (u64::MAX as int) * (u64::MAX as int)) by (nonlinear_arith)
                    requires
                        0 <= i + 1 <= u64::MAX,
                ;
            }
            sum = sum + (self.values[i] as u128);
            i += 1;
        }
        proof {
            assert(s.take(n as int) =~= s);
        }
        let idx99_wide: u128 = (n as u128) * 99 / 100;
        let idx999_wide: u128 = (n as u128) * 999 / 1000;
        let idx99: usize = if idx99_wide < (n - 1) as u128 {
            idx99_wide as usize
        } else {
            n - 1
        };
        let idx999: usize = if idx999_wide < (n - 1) as u128 {
            idx999_wide as usize
        } else {
            n - 1
        };
        MetricValue {
            count: n as u64,
            sum,
            min: self.values[0],
            max: self.values[n - 1],
            p50: self.values[n / 2],
            p99: self.values[idx99],
            p999: self.values[idx999],
        }
    }

    /// Drop every sample.
    pub fn clear(&mut self)
        ensures
            final(self).wf(),
            final(self).samples().len() == 0,
    {
        self.values.clear();
    }
}

/// A saturating event counter.
pub struct Counter {
    value: u64,
}

impl Counter {
    pub closed spec fn spec_value(&self) -> u64 {
        self.value
    }

    pub fn new() -> (r: Self)
        ensures
            r.spec_value() == 0,
    {
        Counter { value: 0 }
    }

    pub fn inc(&mut self)
        ensures
            final(self).spec_value() == (if old(self).spec_value() == u64::MAX {
                u64::MAX as int
            } else {
                old(self).spec_value() + 1
            }),
    {
        if self.value < u64::MAX {
            self.value = self.value + 1;
        }
    }

    pub fn add(&mut self, n: u64)
        ensures
            final(self).spec_value() == (if old(self).spec_value() + n > u64::MAX {
                u64::MAX as int
            } else {
                old(self).spec_value() + n
            }),
    {
        if self.value > u64::MAX - n {
            self.value = u64::MAX;
        } else {
            self.value = self.value + n;
        }
    }

    pub fn get(&self) -> (r: u64)
        ensures
            r == self.spec_value(),
    {
        self.value
    }
}

/// A snapshot of everything the layer counts.
#[derive(Clone, Copy, Debug)]
pub struct ObservabilityStats {
    pub uptime_secs: u64,
    pub messages_total: u64,
    pub messages_success: u64,
    pub messages_failed: u64,
    pub tokens_consumed: u64,
    pub total_cost_cents: u64,
    pub routing_latency: MetricValue,
    pub e2e_latency: MetricValue,
    pub throughput_per_sec: u64,
}

/// One agent's tallies.
#[derive(Clone, Debug)]
pub struct AgentStats {
    pub agent_id: String,
    pub tokens_consumed: u64,
    pub messages_processed: u64,
}

/// Saturating addition on tallies.
pub open spec fn spec_sat_add(a: u64, b: u64) -> int {
    if a + b > u64::MAX {
        u64::MAX as int
    } else {
        a + b
    }
}

/// What a statistics snapshot reports of the layer at `now_ms`: every
/// counter, the uptime, the throughput as whole messages per second of
/// uptime, and both histogram summaries.
pub open spec fn spec_stats_ok(o: ObservabilityLayer, now_ms: i64, r: ObservabilityStats) -> bool {
    let up = o.spec_uptime_secs(now_ms);
    &&& r.uptime_secs == (if up > u64::MAX {
        u64::MAX as int
    } else {
        up
    })
    &&& r.messages_total == o.messages_total.spec_value()
    &&& r.messages_success == o.messages_success.spec_value()
    &&& r.messages_failed == o.messages_failed.spec_value()
    &&& r.tokens_consumed == o.tokens_consumed
    &&& r.total_cost_cents == o.total_cost_cents
    &&& r.throughput_per_sec == (if up > 0 {
        o.messages_total.spec_value() as int / up
    } else {
        0
    })
    &&& spec_snapshot_ok(o.routing_latency_us, r.routing_latency)
    &&& spec_snapshot_ok(o.e2e_latency_ms, r.e2e_latency)
}

/// The metrics layer: totals, latency histograms and per-agent tallies.
pub struct ObservabilityLayer {
    pub messages_total: Counter,
    pub messages_success: Counter,
    pub messages_failed: Counter,
    pub routing_latency_us: Histogram,
    pub e2e_latency_ms: Histogram,
    pub tokens_consumed: u64,
    pub total_cost_cents: u64,
    pub agent_tokens: KeyMap<u64>,
    pub agent_messages: KeyMap<u64>,
    pub start_ms: i64,
}

impl ObservabilityLayer {
    pub open spec fn wf(&self) -> bool {
        &&& self.routing_latency_us.wf()
        &&& self.e2e_latency_ms.wf()
        &&& self.agent_tokens.wf()
        &&& self.agent_messages.wf()
    }

    /// A fresh layer; `now_ms` stamps the start for uptime accounting.
    pub fn new(now_ms: i64) -> (r: Self)
        ensures
            r.wf(),
            r.messages_total.spec_value() == 0,
            r.messages_success.spec_value() == 0,
            r.messages_failed.spec_value() == 0,
            r.tokens_consumed == 0,
            r.total_cost_cents == 0,
            r.routing_latency_us.samples().len() == 0,
            r.e2e_latency_ms.samples().len() == 0,
            r.start_ms == now_ms,
            forall|k: Seq<char>| !r.agent_tokens.contains_key(k),
            forall|k: Seq<char>| !r.agent_messages.contains_key(k),
    {
        ObservabilityLayer {
            messages_total: Counter::new(),
            messages_success: Counter::new(),
            messages_failed: Counter::new(),
            routing_latency_us: Histogram::new(),
            e2e_latency_ms: Histogram::new(),
            tokens_consumed: 0,
            total_cost_cents: 0,
            agent_tokens: KeyMap::new(),
            agent_messages: KeyMap::new(),
            start_ms: now_ms,
        }
    }

    /// Count one processed message: totals, outcome, latency sample, token
    /// and cost tallies, and the agent's own tallies.
    pub fn record_message(
        &mut self,
        agent_id: &str,
        success: bool,
        latency_ms: u64,
        tokens: u64,
        cost_cents: u64,
    )
        requires
            old(self).wf(),
        ensures
            final(self).wf(),
            final(self).messages_total.spec_value() == (if old(self).messages_total.spec_value()
                == u64::MAX {
                u64::MAX as int
            } else {
                old(self).messages_total.spec_value() + 1
            }),
            success ==> final(self).messages_success.spec_value() == (if old(
                self,
            ).messages_success.spec_value() == u64::MAX {
                u64::MAX as int
            } else {
                old(self).messages_success.spec_value() + 1
            }),
            success ==> final(self).messages_failed == old(self).messages_failed,
            !success ==> final(self).messages_failed.spec_value() == (if old(
                self,
            ).messages_failed.spec_value() == u64::MAX {
                u64::MAX as int
            } else {
                old(self).messages_failed.spec_value() + 1
            }),
            !success ==> final(self).messages_success == old(self).messages_success,
            final(self).tokens_consumed == spec_sat_add(old(self).tokens_consumed, tokens),
            final(self).total_cost_cents == spec_sat_add(old(self).total_cost_cents, cost_cents),
            final(self).e2e_latency_ms.samples().len() == old(self).e2e_latency_ms.samples().len()
                + 1,
            final(self).routing_latency_us == old(self).routing_latency_us,
            final(self).agent_tokens.contains_key(agent_id@),
            final(self).agent_tokens.val_of(agent_id@) == spec_sat_add(
                (if old(self).agent_tokens.contains_key(agent_id@) {
                    old(self).agent_tokens.val_of(agent_id@)
                } else {
                    0
                }),
                tokens,
            ),
            final(self).agent_messages.contains_key(agent_id@),
            final(self).agent_messages.val_of(agent_id@) == spec_sat_add(
                (if old(self).agent_messages.contains_key(agent_id@) {
                    old(self).agent_messages.val_of(agent_id@)
                } else {
                    0
                }),
                1,
            ),
            final(self).start_ms == old(self).start_ms,
    {
        self.messages_total.inc();
        if success {
            self.messages_success.inc();
        } else {
            self.messages_failed.inc();
        }
        self.e2e_latency_ms.record(latency_ms);
        if self.tokens_consumed > u64::MAX - tokens {
            self.tokens_consumed = u64::MAX;
        } else {
            self.tokens_consumed = self.tokens_consumed + tokens;
        }
        if self.total_cost_cents > u64::MAX - cost_cents {
            self.total_cost_cents = u64::MAX;
        } else {
            self.total_cost_cents = self.total_cost_cents + cost_cents;
        }
        let prev_tokens: u64 = match self.agent_tokens.get(agent_id) {
            Some(v) => *v,
            None => 0,
        };
        let new_tokens: u64 = if prev_tokens > u64::MAX - tokens {
            u64::MAX
        } else {
            prev_tokens + tokens
        };
        self.agent_tokens.insert(String::from_str(agent_id), new_tokens);
        let prev_msgs: u64 = match self.agent_messages.get(agent_id) {
            Some(v) => *v,
            None => 0,
        };
        let new_msgs: u64 = if prev_msgs == u64::MAX {
            u64::MAX
        } else {
            prev_msgs + 1
        };
        self.agent_messages.insert(String::from_str(agent_id), new_msgs);
    }

    /// Record how long one routing decision took, in microseconds.
    pub fn record_routing_latency(&mut self, latency_us: u64)
        requires
            old(self).wf(),
        ensures
            final(self).wf(),
            final(self).routing_latency_us.samples().len() == old(
                self,
            ).routing_latency_us.samples().len() + 1,
            final(self).e2e_latency_ms == old(self).e2e_latency_ms,
            final(self).messages_total == old(self).messages_total,
            final(self).messages_success == old(self).messages_success,
            final(self).messages_failed == old(self).messages_failed,
            final(self).tokens_consumed == old(self).tokens_consumed,
            final(self).total_cost_cents == old(self).total_cost_cents,
            final(self).agent_tokens == old(self).agent_tokens,
            final(self).agent_messages == old(self).agent_messages,
            final(self).start_ms == old(self).start_ms,
    {
        self.routing_latency_us.record(latency_us);
    }

    /// The uptime in whole seconds at `now_ms`; zero before the start.
    pub open spec fn spec_uptime_secs(&self, now_ms: i64) -> int {
        if now_ms > self.start_ms {
            (now_ms - self.start_ms) / 1000
        } else {
            0
        }
    }

    /// A snapshot of every tally at wall-clock time `now_ms`. Throughput is
    /// whole messages per second of uptime.
    pub fn get_stats(&self, now_ms: i64) -> (r: ObservabilityStats)
        requires
            self.wf(),
        ensures
            spec_stats_ok(*self, now_ms, r),
    {
        let up_wide: i128 = if now_ms > self.start_ms {
            ((now_ms as i128) - (self.start_ms as i128)) / 1000
        } else {
            0
        };
        let uptime_secs: u64 = if up_wide > u64::MAX as i128 {
            u64::MAX
        } else {
            up_wide as u64
        };
        let total = self.messages_total.get();
        let throughput_per_sec: u64 = if up_wide > 0 {
            if up_wide > u64::MAX as i128 {
                0
            } else {
                total / (up_wide as u64)
            }
        } else {
            0
        };
        proof {
            let up = self.spec_uptime_secs(now_ms);
            if up > 0 && up > u64::MAX {
                assert(self.messages_total.spec_value() as int / up == 0) by {
                    vstd::arithmetic::div_mod::lemma_basic_div(
                        self.messages_total.spec_value() as int,
                        up,
                    );
                }
            }
        }
        ObservabilityStats {
            uptime_secs,
            messages_total: total,
            messages_success: self.messages_success.get(),
            messages_failed: self.messages_failed.get(),
            tokens_consumed: self.tokens_consumed,
            total_cost_cents: self.total_cost_cents,
            routing_latency: self.routing_latency_us.snapshot(),
            e2e_latency: self.e2e_latency_ms.snapshot(),
            throughput_per_sec,
        }
    }

    /// One agent's tallies; an unknown agent has zeros.
    pub fn get_agent_stats(&self, agent_id: &str) -> (r: AgentStats)
        requires
            self.wf(),
        ensures
            r.agent_id@ == agent_id@,
            r.tokens_consumed == (if self.agent_tokens.contains_key(agent_id@) {
                self.agent_tokens.val_of(agent_id@) as int
            } else {
                0
            }),
            r.messages_processed == (if self.agent_messages.contains_key(agent_id@) {
                self.agent_messages.val_of(agent_id@) as int
            } else {
                0
            }),
    {
        let tokens_consumed = match self.agent_tokens.get(agent_id) {
            Some(v) => *v,
            None => 0,
        };
        let messages_processed = match self.agent_messages.get(agent_id) {
            Some(v) => *v,
            None => 0,
        };
        AgentStats { agent_id: String::from_str(agent_id), tokens_consumed, messages_processed }
    }
}

} // verus!
