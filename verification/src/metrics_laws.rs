//! What holds of the statistics of an exchange, whatever was measured.

use crate::metrics::{latest, MetricsView};
use crate::stats::{at_percentile, ordered, rank, squared_deviations, total, Percent};
use crate::stats::{
    lemma_deviations_nonnegative, lemma_ordered, lemma_ordered_members, lemma_ordered_unique,
    lemma_rank_at_start, lemma_rank_in_range,
};
use vstd::prelude::*;

verus! {

/// The metrics after a series of answered pings.
pub open spec fn pushed_all(m: MetricsView, latencies: Seq<u64>) -> MetricsView
    decreases latencies.len(),
{
    if latencies.len() == 0 {
        m
    } else {
        pushed_all(m, latencies.drop_last()).pushed(latencies.last())
    }
}

/// The window keeps the latest latencies, in the order in which they came, and each of them is
/// counted.
pub proof fn lemma_window_keeps_latest(window: usize, latencies: Seq<u64>)
    requires
        latencies.len() <= u64::MAX,
    ensures
        pushed_all(MetricsView::fresh(window), latencies) == (MetricsView {
            samples: latest(latencies, window),
            total_sent: latencies.len() as u64,
            ..MetricsView::fresh(window)
        }),
    decreases latencies.len(),
{
    if latencies.len() > 0 {
        let earlier = latencies.drop_last();
        lemma_window_keeps_latest(window, earlier);
        lemma_latest_push(earlier, latencies.last(), window);
        assert(earlier.push(latencies.last()) =~= latencies);
    } else {
        assert(latest(latencies, window) =~= seq![]);
    }
}

/// Pushing onto a window that keeps the latest latencies leaves it keeping the latest ones.
pub proof fn lemma_latest_push(earlier: Seq<u64>, ns: u64, window: usize)
    ensures
        latest(latest(earlier, window).push(ns), window) == latest(earlier.push(ns), window),
{
}

/// A push never leaves more latencies than the window's size, whatever the size and whatever was
/// kept before, and the latency that was pushed is the last one unless the window's size is zero.
pub proof fn lemma_push_within_window(m: MetricsView, ns: u64)
    ensures
        m.pushed(ns).window == m.window,
        m.pushed(ns).samples.len() <= m.pushed(ns).window,
        m.window > 0 ==> m.pushed(ns).samples.last() == ns,
{
}

/// Fresh metrics are well-formed, and whatever is noted keeps metrics well-formed.
pub proof fn lemma_metrics_stay_wf(m: MetricsView, ns: u64, window: usize)
    requires
        m.wf(),
    ensures
        MetricsView::fresh(window).wf(),
        m.total_sent < u64::MAX ==> m.pushed(ns).wf(),
        m.total_sent < u64::MAX ==> m.timed_out().wf(),
        m.connected().wf(),
        m.disconnected().wf(),
{
}

/// The loss is the share of the timed-out pings in all pings, in percent: as many hundredths of the
/// pings were lost as it says. Where there was no ping, nothing was lost.
pub proof fn lemma_loss_is_the_share(m: MetricsView)
    ensures
        m.loss().den > 0,
        m.total_sent > 0 ==> m.loss().num * m.total_sent == 100 * m.timeouts * m.loss().den,
        m.total_sent == 0 ==> m.loss().num == 0,
{
    assert(100 * m.timeouts <= u128::MAX);
    if m.total_sent > 0 {
        assert(m.loss().num == 100 * m.timeouts && m.loss().den == m.total_sent);
    }
}

/// Each ping that times out raises the loss, and each ping that is answered lowers it, unless all
/// pings or none were lost.
pub proof fn lemma_loss_follows_the_pings(m: MetricsView, ns: u64)
    requires
        m.wf(),
        0 < m.total_sent < u64::MAX,
    ensures
        m.timeouts < m.total_sent ==> m.loss().num * m.timed_out().loss().den
            < m.timed_out().loss().num * m.loss().den,
        m.timeouts > 0 ==> m.pushed(ns).loss().num * m.loss().den < m.loss().num * m.pushed(
            ns,
        ).loss().den,
        m.timeouts == m.total_sent ==> m.timed_out().loss().num == 100 * m.timed_out().loss().den,
        m.timeouts == 0 ==> m.pushed(ns).loss().num == 0,
{
    let t = m.timeouts as int;
    let n = m.total_sent as int;
    assert(m.loss().num == 100 * t && m.loss().den == n);
    assert(m.pushed(ns).loss().num == 100 * t && m.pushed(ns).loss().den == n + 1);
    assert(m.timed_out().loss().num == 100 * (t + 1) && m.timed_out().loss().den == n + 1);
    assert(t < n ==> 100 * t * (n + 1) < 100 * (t + 1) * n) by (nonlinear_arith);
    assert(t > 0 ==> 100 * t * n < 100 * t * (n + 1)) by (nonlinear_arith);
}

/// What each event does to the counters: an answered ping is counted as sent, a timed-out one as
/// sent and as lost, the start of a session is noted, and its end is noted and counted. Whatever is
/// not named stays.
pub proof fn lemma_counters_move(m: MetricsView, ns: u64, window: usize)
    ensures
        MetricsView::fresh(window) == (MetricsView {
            samples: seq![],
            window,
            total_sent: 0,
            timeouts: 0,
            reconnects: 0,
            connected: false,
        }),
        m.total_sent < u64::MAX ==> m.pushed(ns).total_sent == m.total_sent + 1,
        m.pushed(ns).timeouts == m.timeouts,
        m.pushed(ns).reconnects == m.reconnects,
        m.pushed(ns).connected == m.connected,
        m.total_sent < u64::MAX ==> m.timed_out().total_sent == m.total_sent + 1,
        m.timeouts < u64::MAX ==> m.timed_out().timeouts == m.timeouts + 1,
        m.timed_out().samples == m.samples,
        m.timed_out().window == m.window,
        m.timed_out().reconnects == m.reconnects,
        m.timed_out().connected == m.connected,
        m.connected() == (MetricsView { connected: true, ..m }),
        m.reconnects < u32::MAX ==> m.disconnected() == (MetricsView {
            connected: false,
            reconnects: (m.reconnects + 1) as u32,
            ..m
        }),
{
}

/// A push puts the latency behind those that are kept, and drops as many of the oldest as the
/// window has no place for.
pub proof fn lemma_push_drops_the_oldest(m: MetricsView, ns: u64, i: int)
    ensures
        m.samples.len() < m.window ==> m.pushed(ns).samples == m.samples + seq![ns],
        m.samples.len() == m.window && m.window > 0 ==> m.pushed(ns).samples == m.samples.skip(1)
            + seq![ns],
        m.window == 0 ==> m.pushed(ns).samples.len() == 0,
        m.pushed(ns).samples == latest(m.samples + seq![ns], m.window),
        latest(m.samples, m.window).len() == if m.samples.len() <= m.window {
            m.samples.len() as int
        } else {
            m.window as int
        },
        0 <= i < latest(m.samples, m.window).len() ==> latest(m.samples, m.window)[i]
            == m.samples[m.samples.len() - latest(m.samples, m.window).len() + i],
{
    assert(m.samples.push(ns) =~= m.samples + seq![ns]);
    if m.samples.len() == m.window && m.window > 0 {
        assert(m.samples.push(ns).skip(1) =~= m.samples.skip(1) + seq![ns]);
    }
}

/// The loss lies between nothing and all of the pings.
pub proof fn lemma_loss_is_a_percentage(m: MetricsView)
    requires
        m.wf(),
    ensures
        m.loss().den > 0,
        0 <= m.loss().num <= 100 * m.loss().den,
{
}

/// The mean lies between the smallest latency and the largest.
pub proof fn lemma_mean_between(s: Seq<u64>, least: u64, most: u64)
    requires
        forall|i: int| 0 <= i < s.len() ==> least <= #[trigger] s[i] <= most,
    ensures
        least * s.len() <= total(s) <= most * s.len(),
    decreases s.len(),
{
    if s.len() > 0 {
        let rest = s.drop_last();
        lemma_mean_between(rest, least, most);
        assert(least * s.len() == least * (s.len() - 1) + least) by (nonlinear_arith);
        assert(most * s.len() == most * (s.len() - 1) + most) by (nonlinear_arith);
    }
}

/// The rank of a percentile is as near as an index can be to that percentage of the way from the
/// first index to the last; of two that are equally near it is the higher one.
pub proof fn lemma_rank_is_nearest(len: nat, p: Percent)
    requires
        len > 0,
        p.den > 0,
        0 <= p.num <= 100 * p.den,
    ensures
        -50 * p.den < 100 * p.den * rank(len, p) - p.num * (len - 1) <= 50 * p.den,
{
    let d = 200 * p.den as int;
    let w = p.num * (len - 1);
    let top = 2 * p.num * (len - 1) + 100 * p.den;
    assert(top == 2 * w + 100 * p.den) by (nonlinear_arith)
        requires
            w == p.num * (len - 1),
            top == 2 * p.num * (len - 1) + 100 * p.den,
    ;
    let q = top / d;
    assert(q * d <= top < q * d + d) by (nonlinear_arith)
        requires
            d > 0,
            q == top / d,
    ;
    assert(w >= 0) by (nonlinear_arith)
        requires
            p.num >= 0,
            len > 0,
            w == p.num * (len - 1),
    ;
    assert(w <= 100 * p.den * (len - 1)) by (nonlinear_arith)
        requires
            p.num <= 100 * p.den,
            len > 0,
            w == p.num * (len - 1),
    ;
    assert(q < len) by (nonlinear_arith)
        requires
            q * d <= top,
            top == 2 * w + 100 * p.den,
            w <= 100 * p.den * (len - 1),
            d == 200 * p.den,
            p.den > 0,
    ;
    assert(q >= 0) by (nonlinear_arith)
        requires
            top < q * d + d,
            top >= 0,
            d > 0,
    ;
    assert(2 * (100 * p.den * q) == q * d) by (nonlinear_arith)
        requires
            d == 200 * p.den,
    ;
}

/// A percentile is the latency at the nearest rank: put the latencies in ascending order, in
/// whatever way, and go that percentage of the way from the first to the last; the percentile is the
/// latency at the nearest index, and of two that are equally near at the higher one.
pub proof fn lemma_percentile_by_nearest_rank(s: Seq<u64>, p: Percent, t: Seq<u64>, k: int)
    requires
        t.to_multiset() == s.to_multiset(),
        forall|i: int, j: int| 0 <= i <= j < t.len() ==> t[i] <= t[j],
        0 <= k < s.len(),
        p.den > 0,
        0 <= p.num <= 100 * p.den,
        -50 * p.den < 100 * p.den * k - p.num * (s.len() - 1) <= 50 * p.den,
    ensures
        at_percentile(s, p) == t[k],
{
    lemma_ordered_unique(s, t);
    lemma_rank_is_nearest(s.len(), p);
    let d = 100 * p.den as int;
    let r = rank(s.len(), p);
    let w = p.num * (s.len() - 1);
    assert(r == k) by (nonlinear_arith)
        requires
            d > 0,
            -d < 2 * (d * r - w) <= d,
            -d < 2 * (d * k - w) <= d,
    ;
}

/// A percentile is one of the latencies.
pub proof fn lemma_percentile_is_a_sample(s: Seq<u64>, p: Percent)
    requires
        s.len() > 0,
        p.den > 0,
    ensures
        s.contains(at_percentile(s, p)),
{
    lemma_ordered(s);
    lemma_rank_in_range(s.len(), p);
    lemma_ordered_members(s, at_percentile(s, p));
}

/// A higher percentile is no smaller than a lower one.
pub proof fn lemma_percentiles_ascend(s: Seq<u64>, p: Percent, q: Percent)
    requires
        s.len() > 0,
        p.den > 0,
        q.den > 0,
        p.num * q.den <= q.num * p.den,
    ensures
        at_percentile(s, p) <= at_percentile(s, q),
{
    lemma_ordered(s);
    lemma_rank_in_range(s.len(), p);
    lemma_rank_in_range(s.len(), q);
    let last = s.len() - 1;
    let n1 = 2 * p.num * last + 100 * p.den;
    let n2 = 2 * q.num * last + 100 * q.den;
    let d1 = 200 * p.den as int;
    let d2 = 200 * q.den as int;
    let w1 = p.num * q.den;
    let w2 = q.num * p.den;
    assert(w1 * last <= w2 * last) by (nonlinear_arith)
        requires
            w1 <= w2,
            last >= 0,
    ;
    assert(n1 * d2 == 400 * (w1 * last) + 20000 * (p.den * q.den)) by (nonlinear_arith)
        requires
            n1 == 2 * p.num * last + 100 * p.den,
            d2 == 200 * q.den,
            w1 == p.num * q.den,
    ;
    assert(n2 * d1 == 400 * (w2 * last) + 20000 * (p.den * q.den)) by (nonlinear_arith)
        requires
            n2 == 2 * q.num * last + 100 * q.den,
            d1 == 200 * p.den,
            w2 == q.num * p.den,
    ;
    lemma_quotients_ascend(n1, d1, n2, d2);
}

/// The quotient of a smaller fraction is no larger.
proof fn lemma_quotients_ascend(n1: int, d1: int, n2: int, d2: int)
    requires
        d1 > 0,
        d2 > 0,
        n1 * d2 <= n2 * d1,
    ensures
        n1 / d1 <= n2 / d2,
{
    let q1 = n1 / d1;
    let q2 = n2 / d2;
    assert(q1 * d1 <= n1) by (nonlinear_arith)
        requires
            d1 > 0,
            q1 == n1 / d1,
    ;
    assert(n2 < q2 * d2 + d2) by (nonlinear_arith)
        requires
            d2 > 0,
            q2 == n2 / d2,
    ;
    if q1 > q2 {
        assert(q1 * d2 >= q2 * d2 + d2) by (nonlinear_arith)
            requires
                q1 >= q2 + 1,
                d2 > 0,
        ;
        assert(q1 * d1 * d2 <= n1 * d2) by (nonlinear_arith)
            requires
                q1 * d1 <= n1,
                d2 > 0,
        ;
        assert(q1 * d2 * d1 == q1 * d1 * d2) by (nonlinear_arith);
        assert(n2 * d1 < q1 * d2 * d1) by (nonlinear_arith)
            requires
                n2 < q1 * d2,
                d1 > 0,
        ;
    }
}

/// A percentage of zero or below gives the smallest latency, one of a hundred or above the largest.
pub proof fn lemma_percentile_ends(s: Seq<u64>, p: Percent, i: int)
    requires
        p.den > 0,
        0 <= i < s.len(),
    ensures
        p.num <= 0 ==> at_percentile(s, p) <= s[i],
        p.num >= 100 * p.den ==> s[i] <= at_percentile(s, p),
{
    let last = s.len() - 1;
    lemma_ordered(s);
    lemma_ordered_members(s, s[i]);
    lemma_rank_in_range(s.len(), p);
    let d = 200 * p.den as int;
    if p.num <= 0 {
        lemma_rank_at_start(s.len(), p);
    }
    if p.num >= 100 * p.den {
        let top = 2 * p.num * last + 100 * p.den;
        assert(top >= last * d) by (nonlinear_arith)
            requires
                top == 2 * p.num * last + 100 * p.den,
                p.num >= 100 * p.den,
                d == 200 * p.den,
                last >= 0,
        ;
        assert(top / d >= last) by (nonlinear_arith)
            requires
                top >= last * d,
                d > 0,
        ;
    }
}

/// The jitter is zero exactly when all latencies are the same.
pub proof fn lemma_no_jitter_iff_steady(s: Seq<u64>)
    ensures
        squared_deviations(s, s.len() as int, total(s) as int) == 0 <==> (forall|i: int, j: int|
            0 <= i < s.len() && 0 <= j < s.len() ==> s[i] == s[j]),
{
    let n = s.len() as int;
    let t = total(s) as int;
    if squared_deviations(s, n, t) == 0 {
        assert forall|i: int, j: int| 0 <= i < s.len() && 0 <= j < s.len() implies s[i] == s[j] by {
            lemma_zero_deviation(s, n, t, i);
            lemma_zero_deviation(s, n, t, j);
            assert(s[i] == s[j]) by (nonlinear_arith)
                requires
                    n * s[i] == t,
                    n * s[j] == t,
                    n > 0,
            ;
        }
    }
    if forall|i: int, j: int| 0 <= i < s.len() && 0 <= j < s.len() ==> s[i] == s[j] {
        if s.len() > 0 {
            let x = s[0];
            lemma_mean_between(s, x, x);
            assert(n * x == t) by (nonlinear_arith)
                requires
                    x * n <= t <= x * n,
            ;
            lemma_steady_deviations(s, n, t);
        }
    }
}

/// Where the sum of the squared deviations is zero, so is each deviation.
proof fn lemma_zero_deviation(s: Seq<u64>, n: int, t: int, i: int)
    requires
        squared_deviations(s, n, t) == 0,
        0 <= i < s.len(),
    ensures
        n * s[i] == t,
    decreases s.len(),
{
    let rest = s.drop_last();
    let d = n * s.last() - t;
    lemma_deviations_nonnegative(rest, n, t);
    assert(d * d >= 0) by (nonlinear_arith);
    if i == s.len() - 1 {
        assert(d == 0) by (nonlinear_arith)
            requires
                d * d == 0,
        ;
    } else {
        lemma_zero_deviation(rest, n, t, i);
    }
}

/// Where each deviation is zero, so is the sum of their squares.
proof fn lemma_steady_deviations(s: Seq<u64>, n: int, t: int)
    requires
        forall|i: int| 0 <= i < s.len() ==> n * #[trigger] s[i] == t,
    ensures
        squared_deviations(s, n, t) == 0,
    decreases s.len(),
{
    if s.len() > 0 {
        lemma_steady_deviations(s.drop_last(), n, t);
        let d = n * s.last() - t;
        assert(d * d == 0) by (nonlinear_arith)
            requires
                d == 0,
        ;
    }
}

} // verus!
