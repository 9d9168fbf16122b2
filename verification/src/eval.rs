//! Delivery metrics of an evaluation run.
//!
//! Rates and fractions are fixed-point numbers (see [`crate::units`]);
//! latencies are whole microseconds.

use vstd::prelude::*;
use crate::sorting::{ascending, lemma_ascending_len, sort};
use crate::units::{add_saturating, min_of, mul_div, saturate, UNIT};

verus! {

/// One hundred percent, as a fixed-point number of percent.
pub const FULL_PERCENT: u64 = 100_000_000;

/// What was published and what arrived.
#[derive(Debug)]
pub struct DeliveryMetrics {
    pub messages_published: u64,
    /// Deliveries counted per receiving node.
    pub messages_delivered: u64,
    /// Deliveries owed: one per message and node.
    pub expected_deliveries: u64,
    /// Latency samples in microseconds.
    pub latencies_us: Vec<u64>,
}

impl Default for DeliveryMetrics {
    fn default() -> (metrics: DeliveryMetrics)
        ensures
            metrics.messages_published == 0,
            metrics.messages_delivered == 0,
            metrics.expected_deliveries == 0,
            metrics.latencies_us@.len() == 0,
    {
        DeliveryMetrics {
            messages_published: 0,
            messages_delivered: 0,
            expected_deliveries: 0,
            latencies_us: Vec::new(),
        }
    }
}

/// The rank, among `n` samples in ascending order, of the percentile
/// `percent`: `percent / 100 * (n - 1)`, rounded to the nearest integer,
/// halves upward.
pub open spec fn rank(percent: int, n: int) -> int {
    (percent * (n - 1) + FULL_PERCENT / 2) / (FULL_PERCENT as int)
}

/// How many of the samples are at most `limit`.
pub open spec fn count_within(samples: Seq<u64>, limit: u64) -> nat
    decreases samples.len(),
{
    if samples.len() == 0 {
        0
    } else {
        count_within(samples.drop_last(), limit) + if samples.last() <= limit {
            1nat
        } else {
            0nat
        }
    }
}

/// No more samples are within a limit than there are samples.
pub proof fn lemma_count_within_bound(samples: Seq<u64>, limit: u64)
    ensures
        count_within(samples, limit) <= samples.len(),
    decreases samples.len(),
{
    if samples.len() > 0 {
        lemma_count_within_bound(samples.drop_last(), limit);
    }
}

/// The greatest of the samples; zero where there are none.
pub open spec fn greatest(samples: Seq<u64>) -> u64
    decreases samples.len(),
{
    if samples.len() == 0 {
        0
    } else if samples.last() >= greatest(samples.drop_last()) {
        samples.last()
    } else {
        greatest(samples.drop_last())
    }
}

impl DeliveryMetrics {
    /// The part of the expected deliveries that was achieved, at most one;
    /// zero where none was expected.
    pub open spec fn rate(&self) -> int {
        if self.expected_deliveries == 0 {
            0
        } else {
            min_of(
                self.messages_delivered * UNIT / (self.expected_deliveries as int),
                UNIT as int,
            )
        }
    }

    /// The latency at the percentile `percent`, if there are samples.
    pub open spec fn latency_at(&self, percent: u64) -> Option<u64> {
        if self.latencies_us@.len() == 0 {
            None
        } else {
            Some(
                ascending(self.latencies_us@)[rank(
                    percent as int,
                    self.latencies_us@.len() as int,
                )],
            )
        }
    }

    /// The width of one of `buckets` equal steps up to the greatest sample,
    /// at least one microsecond.
    pub open spec fn step(&self, buckets: usize) -> int {
        let width = greatest(self.latencies_us@) / (buckets as u64);
        if width < 1 {
            1
        } else {
            width as int
        }
    }

    /// Sets the deliveries owed to one per message published and node.
    pub fn set_expected_deliveries(&mut self, node_count: usize)
        ensures
            final(self).expected_deliveries == saturate(
                old(self).messages_published * node_count,
            ),
            final(self).messages_published == old(self).messages_published,
            final(self).messages_delivered == old(self).messages_delivered,
            final(self).latencies_us == old(self).latencies_us,
    {
        self.expected_deliveries = mul_div(self.messages_published, node_count as u64, 1);
    }

    /// Counts a message published to `node_count` nodes.
    pub fn record_publish(&mut self, node_count: usize)
        ensures
            final(self).messages_published == saturate(old(self).messages_published + 1),
            final(self).expected_deliveries == saturate(
                old(self).expected_deliveries + node_count,
            ),
            final(self).messages_delivered == old(self).messages_delivered,
            final(self).latencies_us == old(self).latencies_us,
    {
        self.messages_published = add_saturating(self.messages_published, 1);
        self.expected_deliveries = add_saturating(self.expected_deliveries, node_count as u64);
    }

    /// Counts a delivery that took `latency_us` microseconds.
    pub fn record_delivery(&mut self, latency_us: u64)
        ensures
            final(self).messages_delivered == saturate(old(self).messages_delivered + 1),
            final(self).latencies_us@ == old(self).latencies_us@.push(latency_us),
            final(self).messages_published == old(self).messages_published,
            final(self).expected_deliveries == old(self).expected_deliveries,
    {
        self.messages_delivered = add_saturating(self.messages_delivered, 1);
        self.latencies_us.push(latency_us);
    }

    /// The delivery rate: the part of the expected deliveries that was
    /// achieved.
    pub fn delivery_rate(&self) -> (rate: u64)
        ensures
            rate == self.rate(),
    {
        if self.expected_deliveries == 0 {
            return 0;
        }
        let ratio: u64 = mul_div(self.messages_delivered, UNIT, self.expected_deliveries);
        if ratio > UNIT {
            UNIT
        } else {
            ratio
        }
    }

    /// The latency, in microseconds, at the percentile `percent`, a
    /// fixed-point number of percent.
    pub fn percentile(&self, percent: u64) -> (latency: Option<u64>)
        requires
            percent <= FULL_PERCENT,
        ensures
            latency == self.latency_at(percent),
    {
        let n: usize = self.latencies_us.len();
        if n == 0 {
            return None;
        }
        let sorted = sort(&self.latencies_us);
        proof {
            lemma_ascending_len(self.latencies_us@);
        }
        let last: u64 = (n - 1) as u64;
        assert(percent * last <= 100_000_000 * 0xffff_ffff_ffff_ffff) by (nonlinear_arith)
            requires
                percent <= 100_000_000,
                last <= 0xffff_ffff_ffff_ffff,
        ;
        let at: u128 = ((percent as u128) * (last as u128) + (FULL_PERCENT as u128) / 2) / (
        FULL_PERCENT as u128);
        assert(at <= last) by (nonlinear_arith)
            requires
                at == (percent * last + 50_000_000) / 100_000_000,
                percent <= 100_000_000,
                0 <= last,
        ;
        Some(sorted[at as usize])
    }

    /// The median latency.
    pub fn p50(&self) -> (latency: Option<u64>)
        ensures
            latency == self.latency_at(50_000_000),
    {
        self.percentile(50_000_000)
    }

    /// The latency that nine in ten samples stay within.
    pub fn p90(&self) -> (latency: Option<u64>)
        ensures
            latency == self.latency_at(90_000_000),
    {
        self.percentile(90_000_000)
    }

    /// The latency that ninety-nine in a hundred samples stay within.
    pub fn p99(&self) -> (latency: Option<u64>)
        ensures
            latency == self.latency_at(99_000_000),
    {
        self.percentile(99_000_000)
    }

    /// The latency that 999 in a thousand samples stay within.
    pub fn p999(&self) -> (latency: Option<u64>)
        ensures
            latency == self.latency_at(99_900_000),
    {
        self.percentile(99_900_000)
    }

    /// How many samples are at most `limit`.
    pub fn within(&self, limit: u64) -> (count: usize)
        ensures
            count == count_within(self.latencies_us@, limit),
    {
        let mut count: usize = 0;
        let mut k: usize = 0;
        proof {
            assert(self.latencies_us@.take(0) =~= Seq::empty());
        }
        while k < self.latencies_us.len()
            invariant
                k <= self.latencies_us.len(),
                count <= k,
                count == count_within(self.latencies_us@.take(k as int), limit),
            decreases self.latencies_us.len() - k,
        {
            proof {
                assert(self.latencies_us@.take(k + 1).drop_last() =~= self.latencies_us@.take(
                    k as int,
                ));
            }
            if self.latencies_us[k] <= limit {
                count += 1;
            }
            k += 1;
        }
        proof {
            assert(self.latencies_us@.take(self.latencies_us.len() as int)
                =~= self.latencies_us@);
        }
        count
    }

    /// The greatest sample; zero where there are none.
    pub fn max_latency(&self) -> (max: u64)
        ensures
            max == greatest(self.latencies_us@),
    {
        let mut max: u64 = 0;
        let mut k: usize = 0;
        proof {
            assert(self.latencies_us@.take(0) =~= Seq::empty());
        }
        while k < self.latencies_us.len()
            invariant
                k <= self.latencies_us.len(),
                max == greatest(self.latencies_us@.take(k as int)),
            decreases self.latencies_us.len() - k,
        {
            proof {
                assert(self.latencies_us@.take(k + 1).drop_last() =~= self.latencies_us@.take(
                    k as int,
                ));
            }
            if self.latencies_us[k] >= max {
                max = self.latencies_us[k];
            }
            k += 1;
        }
        proof {
            assert(self.latencies_us@.take(self.latencies_us.len() as int)
                =~= self.latencies_us@);
        }
        max
    }

    /// The cumulative distribution of the latencies over `buckets` equal
    /// steps: for each step its upper limit and the part of the samples
    /// that stay within it. Empty where there are no samples.
    pub fn cdf(&self, buckets: usize) -> (curve: Vec<(u64, u64)>)
        requires
            buckets > 0 || self.latencies_us@.len() == 0,
        ensures
            self.latencies_us@.len() == 0 ==> curve@.len() == 0,
            self.latencies_us@.len() > 0 ==> curve@.len() == buckets,
            forall|i: int|
                0 <= i < curve@.len() ==> (#[trigger] curve@[i]).0 == (i + 1) * self.step(buckets)
                    && curve@[i].1 == count_within(self.latencies_us@, curve@[i].0) * UNIT / (
                self.latencies_us@.len() as int),
    {
        let n: usize = self.latencies_us.len();
        let mut curve: Vec<(u64, u64)> = Vec::new();
        if n == 0 {
            return curve;
        }
        let top: u64 = self.max_latency();
        let width: u64 = top / (buckets as u64);
        let step: u64 = if width < 1 {
            1
        } else {
            width
        };
        assert(step * buckets <= u64::MAX) by (nonlinear_arith)
            requires
                buckets > 0,
                buckets <= u64::MAX,
                step == 1 || step == top / (buckets as u64),
                top <= u64::MAX,
        ;
        let mut i: usize = 0;
        while i < buckets
            invariant
                i <= buckets,
                curve@.len() == i,
                n == self.latencies_us@.len(),
                n > 0,
                step == self.step(buckets),
                step * buckets <= u64::MAX,
                forall|j: int|
                    0 <= j < i ==> (#[trigger] curve@[j]).0 == (j + 1) * step && curve@[j].1
                        == count_within(self.latencies_us@, curve@[j].0) * UNIT / (n as int),
            decreases buckets - i,
        {
            assert((i + 1) * step <= step * buckets) by (nonlinear_arith)
                requires
                    i < buckets,
                    0 <= step,
            ;
            let limit: u64 = ((i as u64) + 1) * step;
            let count: usize = self.within(limit);
            proof {
                lemma_count_within_bound(self.latencies_us@, limit);
            }
            let part: u64 = mul_div(count as u64, UNIT, n as u64);
            assert(count * UNIT / (n as int) <= UNIT) by (nonlinear_arith)
                requires
                    0 <= count <= n,
                    n > 0,
                    UNIT == 1_000_000,
            ;
            curve.push((limit, part));
            i += 1;
        }
        curve
    }
}

} // verus!
