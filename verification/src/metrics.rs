//! What is known of one exchange: its latest latencies and its counters.

use crate::band::{Ratio, Spread};
use crate::stats::{at_percentile, scaled_squares, squared_deviations, total, Percent};
use crate::stats::{
    lemma_ordered, lemma_ordered_unique, lemma_rank_at_start, lemma_rank_in_range,
    lemma_scaled_squares_bound, lemma_total_bound, lemma_variance,
};
use crate::wide::Wide;
use std::collections::VecDeque;
use vstd::prelude::*;

verus! {

/// The last elements of a series, as many as the window's size.
pub open spec fn latest(s: Seq<u64>, window: usize) -> Seq<u64> {
    if s.len() <= window {
        s
    } else {
        s.skip(s.len() - window)
    }
}

/// The state of [`Metrics`].
pub struct MetricsView {
    /// The latest latencies in nanoseconds, the oldest first.
    pub samples: Seq<u64>,
    /// How many latencies are kept.
    pub window: usize,
    /// How many pings were answered or timed out.
    pub total_sent: u64,
    /// How many pings timed out.
    pub timeouts: u64,
    /// How many sessions have ended.
    pub reconnects: u32,
    /// Whether a session stands.
    pub connected: bool,
}

impl MetricsView {
    /// Nothing is known yet.
    pub open spec fn fresh(window: usize) -> MetricsView {
        MetricsView {
            samples: seq![],
            window,
            total_sent: 0,
            timeouts: 0,
            reconnects: 0,
            connected: false,
        }
    }

    /// After an answered ping. A full window loses its oldest latency; a window of size zero keeps
    /// none.
    pub open spec fn pushed(self, ns: u64) -> MetricsView {
        MetricsView {
            samples: latest(self.samples.push(ns), self.window),
            total_sent: (self.total_sent + 1) as u64,
            ..self
        }
    }

    /// After a ping that timed out.
    pub open spec fn timed_out(self) -> MetricsView {
        MetricsView {
            total_sent: (self.total_sent + 1) as u64,
            timeouts: (self.timeouts + 1) as u64,
            ..self
        }
    }

    /// After the start of a session.
    pub open spec fn connected(self) -> MetricsView {
        MetricsView { connected: true, ..self }
    }

    /// After the end of a session.
    pub open spec fn disconnected(self) -> MetricsView {
        MetricsView { connected: false, reconnects: (self.reconnects + 1) as u32, ..self }
    }

    /// How many of the pings were lost, in percent; zero when there was none.
    pub open spec fn loss(self) -> Ratio {
        if self.total_sent == 0 {
            Ratio { num: 0, den: 1 }
        } else {
            Ratio { num: (100 * self.timeouts) as u128, den: self.total_sent as u128 }
        }
    }

    /// The window is not overfull, and the counters account for each other and for the samples.
    pub open spec fn wf(self) -> bool {
        &&& self.samples.len() <= self.window
        &&& self.samples.len() + self.timeouts <= self.total_sent
    }
}

/// Rolling statistics of one exchange.
#[derive(Debug)]
pub struct Metrics {
    samples: VecDeque<u64>,
    window: usize,
    total_sent: u64,
    timeouts: u64,
    reconnects: u32,
    connected: bool,
}

impl View for Metrics {
    type V = MetricsView;

    closed spec fn view(&self) -> MetricsView {
        MetricsView {
            samples: self.samples@,
            window: self.window,
            total_sent: self.total_sent,
            timeouts: self.timeouts,
            reconnects: self.reconnects,
            connected: self.connected,
        }
    }
}

/// Sorts 64-bit numbers in place with `Vec::sort`: afterwards they are the same numbers, each
/// as often as before, in ascending order.
#[verifier::external_body]
fn sort_ascending(v: &mut Vec<u64>)
    ensures
        final(v)@.to_multiset() == old(v)@.to_multiset(),
        forall|i: int, j: int| 0 <= i <= j < final(v)@.len() ==> final(v)@[i] <= final(v)@[j],
{
    v.sort();
}

impl Metrics {
    /// Metrics that keep the latest `window` latencies. The window has to fit in memory: its
    /// 64-bit samples may take up at most `isize::MAX` bytes.
    pub fn new(window: usize) -> (r: Metrics)
        requires
            window * 8 <= isize::MAX,
        ensures
            r@ == MetricsView::fresh(window),
    {
        Metrics {
            samples: VecDeque::with_capacity(window),
            window,
            total_sent: 0,
            timeouts: 0,
            reconnects: 0,
            connected: false,
        }
    }

    /// Takes note of an answered ping.
    pub fn push(&mut self, ns: u64)
        requires
            old(self)@.total_sent < u64::MAX,
        ensures
            final(self)@ == old(self)@.pushed(ns),
            final(self)@.samples.len() <= final(self)@.window,
    {
        let ghost before = self.samples@;
        while self.samples.len() > 0 && self.samples.len() >= self.window
            invariant
                self@ == (MetricsView { samples: self.samples@, ..old(self)@ }),
                self.samples@.len() <= before.len(),
                self.samples@ == before.skip(before.len() - self.samples@.len()),
                self.samples@.len() == before.len() || self.samples@.len() + 1 >= self.window,
            decreases self.samples@.len(),
        {
            let _ = self.samples.pop_front();
        }
        if self.window > 0 {
            self.samples.push_back(ns);
        }
        assert(self.samples@ =~= latest(before.push(ns), self.window));
        self.total_sent = self.total_sent + 1;
    }

    /// Takes note of a ping that timed out.
    pub fn push_timeout(&mut self)
        requires
            old(self)@.total_sent < u64::MAX,
            old(self)@.timeouts < u64::MAX,
        ensures
            final(self)@ == old(self)@.timed_out(),
    {
        self.total_sent = self.total_sent + 1;
        self.timeouts = self.timeouts + 1;
    }

    /// Takes note of the start of a session.
    pub fn set_connected(&mut self)
        ensures
            final(self)@ == old(self)@.connected(),
    {
        self.connected = true;
    }

    /// Takes note of the end of a session.
    pub fn set_disconnected(&mut self)
        requires
            old(self)@.reconnects < u32::MAX,
        ensures
            final(self)@ == old(self)@.disconnected(),
    {
        self.connected = false;
        self.reconnects = self.reconnects + 1;
    }

    /// Whether no latency is kept.
    pub fn is_empty(&self) -> (r: bool)
        ensures
            r == (self@.samples.len() == 0),
    {
        self.samples.len() == 0
    }

    /// How many pings were answered or timed out.
    pub fn total_sent(&self) -> (r: u64)
        ensures
            r == self@.total_sent,
    {
        self.total_sent
    }

    /// How many pings timed out.
    pub fn timeouts(&self) -> (r: u64)
        ensures
            r == self@.timeouts,
    {
        self.timeouts
    }

    /// How many sessions have ended.
    pub fn reconnects(&self) -> (r: u32)
        ensures
            r == self@.reconnects,
    {
        self.reconnects
    }

    /// Whether a session stands.
    pub fn connected(&self) -> (r: bool)
        ensures
            r == self@.connected,
    {
        self.connected
    }

    /// The latencies that are kept, the oldest first.
    pub fn samples(&self) -> (r: Vec<u64>)
        ensures
            r@ == self@.samples,
    {
        let mut out: Vec<u64> = Vec::new();
        let mut i: usize = 0;
        while i < self.samples.len()
            invariant
                i <= self.samples@.len(),
                out@ == self.samples@.take(i as int),
            decreases self.samples@.len() - i,
        {
            out.push(self.samples[i]);
            i = i + 1;
        }
        out
    }

    /// The smallest latency that is kept.
    pub fn min(&self) -> (r: Option<u64>)
        ensures
            r is None <==> self@.samples.len() == 0,
            r matches Some(least) ==> {
                &&& self@.samples.contains(least)
                &&& forall|i: int| 0 <= i < self@.samples.len() ==> least <= self@.samples[i]
            },
    {
        if self.samples.len() == 0 {
            return None;
        }
        let mut least: u64 = self.samples[0];
        let mut i: usize = 1;
        while i < self.samples.len()
            invariant
                1 <= i <= self.samples@.len(),
                self.samples@.contains(least),
                forall|j: int| 0 <= j < i ==> least <= self.samples@[j],
            decreases self.samples@.len() - i,
        {
            if self.samples[i] < least {
                least = self.samples[i];
            }
            i = i + 1;
        }
        Some(least)
    }

    /// The largest latency that is kept.
    pub fn max(&self) -> (r: Option<u64>)
        ensures
            r is None <==> self@.samples.len() == 0,
            r matches Some(most) ==> {
                &&& self@.samples.contains(most)
                &&& forall|i: int| 0 <= i < self@.samples.len() ==> self@.samples[i] <= most
            },
    {
        if self.samples.len() == 0 {
            return None;
        }
        let mut most: u64 = self.samples[0];
        let mut i: usize = 1;
        while i < self.samples.len()
            invariant
                1 <= i <= self.samples@.len(),
                self.samples@.contains(most),
                forall|j: int| 0 <= j < i ==> self.samples@[j] <= most,
            decreases self.samples@.len() - i,
        {
            if self.samples[i] > most {
                most = self.samples[i];
            }
            i = i + 1;
        }
        Some(most)
    }

    /// The sum of the latencies that are kept.
    fn sum(&self) -> (r: u128)
        ensures
            r == total(self@.samples),
    {
        let mut sum: u128 = 0;
        let mut i: usize = 0;
        while i < self.samples.len()
            invariant
                i <= self.samples@.len(),
                sum == total(self.samples@.take(i as int)),
            decreases self.samples@.len() - i,
        {
            let ghost next = self.samples@.take(i + 1);
            assert(next.drop_last() =~= self.samples@.take(i as int));
            proof {
                lemma_total_bound(next);
            }
            sum = sum + self.samples[i] as u128;
            i = i + 1;
        }
        assert(self.samples@.take(i as int) =~= self.samples@);
        sum
    }

    /// The mean of the latencies that are kept, in nanoseconds; zero when there is none.
    pub fn avg(&self) -> (r: Ratio)
        ensures
            self@.samples.len() == 0 ==> r.num == 0 && r.den == 1,
            self@.samples.len() > 0 ==> {
                &&& r.num == total(self@.samples)
                &&& r.den == self@.samples.len()
            },
    {
        if self.samples.len() == 0 {
            return Ratio { num: 0, den: 1 };
        }
        Ratio { num: self.sum(), den: self.samples.len() as u128 }
    }

    /// The latency at a percentile; zero when there is none.
    pub fn percentile(&self, p: Percent) -> (r: u64)
        requires
            p.den > 0,
        ensures
            self@.samples.len() == 0 ==> r == 0,
            self@.samples.len() > 0 ==> r == at_percentile(self@.samples, p),
    {
        if self.samples.len() == 0 {
            return 0;
        }
        let mut sorted: Vec<u64> = self.samples();
        sort_ascending(&mut sorted);
        proof {
            lemma_ordered(self@.samples);
            lemma_ordered_unique(self@.samples, sorted@);
            lemma_rank_in_range(self@.samples.len(), p);
        }
        if p.num <= 0 {
            proof {
                lemma_rank_at_start(self@.samples.len(), p);
            }
            return sorted[0];
        }
        let last: usize = sorted.len() - 1;
        assert(2 * p.num * last <= 2 * i32::MAX * u64::MAX) by (nonlinear_arith)
            requires
                0 <= p.num <= i32::MAX,
                0 <= last <= u64::MAX,
        ;
        assert(2 * p.num * last >= 0) by (nonlinear_arith)
            requires
                0 <= p.num,
                0 <= last,
        ;
        let scaled: u128 = 2 * p.num as u128 * last as u128;
        let nearest: u128 = (scaled + 100 * p.den as u128) / (200 * p.den as u128);
        if nearest <= last as u128 {
            sorted[nearest as usize]
        } else {
            sorted[last]
        }
    }

    /// The standard deviation of the latencies that are kept, in nanoseconds; zero when there
    /// are fewer than two.
    ///
    /// With `n` latencies of sum `t`, the variance is the mean of the squares of `x - t / n`, that
    /// is the sum of the squares of `n * x - t` divided by the cube of `n`.
    pub fn jitter(&self) -> (r: Spread)
        ensures
            self@.samples.len() < 2 ==> r.num.value() == 0 && r.den == 1,
            self@.samples.len() >= 2 ==> {
                &&& self@.samples.len() * r.num.value() == squared_deviations(
                    self@.samples,
                    self@.samples.len() as int,
                    total(self@.samples) as int,
                )
                &&& r.den == self@.samples.len() * self@.samples.len()
            },
    {
        let len: usize = self.samples.len();
        if len < 2 {
            return Spread { num: Wide::from_u128(0), den: 1 };
        }
        let n: u128 = len as u128;
        assert(4 <= n * n <= u64::MAX * u64::MAX) by (nonlinear_arith)
            requires
                2 <= n <= u64::MAX,
        ;
        let sum: u128 = self.sum();
        let mut squares: Wide = Wide::from_u128(0);
        let mut i: usize = 0;
        while i < self.samples.len()
            invariant
                i <= self.samples@.len(),
                n == self.samples@.len(),
                n <= u64::MAX,
                squares.value() == scaled_squares(self.samples@.take(i as int), n as nat),
            decreases self.samples@.len() - i,
        {
            let x: u128 = self.samples[i] as u128;
            let ghost next = self.samples@.take(i + 1);
            assert(next.drop_last() =~= self.samples@.take(i as int));
            assert(n * x <= u64::MAX * u64::MAX) by (nonlinear_arith)
                requires
                    0 <= n <= u64::MAX,
                    0 <= x <= u64::MAX,
            ;
            proof {
                lemma_scaled_squares_bound(next, n as nat);
                lemma_squares_fit(next.len(), n as nat);
            }
            squares = squares.plus(Wide::product(n * x, x));
            i = i + 1;
        }
        assert(self.samples@.take(i as int) =~= self.samples@);
        proof {
            lemma_variance(self.samples@);
        }
        Spread { num: squares.minus(Wide::product(sum, sum)), den: n * n }
    }

    /// How many of the pings were lost, in percent; zero when there was none.
    pub fn loss_pct(&self) -> (r: Ratio)
        ensures
            r == self@.loss(),
            r.den > 0,
            self@.total_sent == 0 ==> r.num == 0,
            self@.total_sent > 0 ==> r.num * self@.total_sent == 100 * self@.timeouts * r.den,
    {
        if self.total_sent == 0 {
            return Ratio { num: 0, den: 1 };
        }
        Ratio { num: 100 * self.timeouts as u128, den: self.total_sent as u128 }
    }
}

/// The sum of at most 2^64 terms, each of at most 192 bits, has at most 256 bits.
proof fn lemma_squares_fit(len: nat, n: nat)
    requires
        len <= u64::MAX,
        n <= u64::MAX,
    ensures
        len * (n * (u64::MAX * u64::MAX)) < 0x1_0000_0000_0000_0000_0000_0000_0000_0000int
            * 0x1_0000_0000_0000_0000_0000_0000_0000_0000int,
{
    let square = u64::MAX * u64::MAX;
    assert(n * square <= u64::MAX * square) by (nonlinear_arith)
        requires
            0 <= n <= u64::MAX,
            square >= 0,
    ;
    assert(len * (n * square) <= u64::MAX * (u64::MAX * square)) by (nonlinear_arith)
        requires
            0 <= len <= u64::MAX,
            0 <= n * square <= u64::MAX * square,
    ;
}

} // verus!
