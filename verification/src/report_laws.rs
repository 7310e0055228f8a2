//! What the report, the live line and the banner show, part by part.

use crate::band::{latency_band, Band, Ratio, Spread};
use crate::clock::{live_time, report_time, Date, Moment};
use crate::config::Config;
use crate::metrics::MetricsView;
use crate::metrics_laws::lemma_percentile_by_nearest_rank;
use crate::report::{
    banner_lines, block_lines, divider, end_lines, figure_layout, figures, head_lines, header,
    lines_of, live_layout, settings, shown_figure, shown_live, title, Figure, FigureView, Line,
    LineView,
};
use crate::stats::{
    lemma_deviations_add, lemma_ordered_unique, lemma_total_adds, lemma_variance, scaled_squares,
    squared_deviations, total, Percent,
};
use crate::style::{shown_mark, shown_name, styled};
use crate::text::decimal;
use vstd::prelude::*;

verus! {

/// The numbers in the block of an exchange with latencies, each found by its label. Let `t` be the
/// latencies in ascending order, and `k50`, `k95` and `k99` the indices nearest to 50, 95 and 99
/// percent of the way from its first index to its last. Then the smallest latency, the largest and
/// the percentiles are the elements of `t` at its start, at its end and at those indices; the mean is
/// the sum of the latencies over their number; the square of the jitter is the mean of the squared
/// distances from the mean; and the loss is the share of the timed-out pings in percent.
pub proof fn lemma_block_numbers_by_label(
    name: Seq<char>,
    m: MetricsView,
    on: bool,
    t: Seq<u64>,
    k50: int,
    k95: int,
    k99: int,
    i: int,
)
    requires
        t.to_multiset() == m.samples.to_multiset(),
        forall|a: int, b: int| 0 <= a <= b < t.len() ==> t[a] <= t[b],
        0 <= k50 < m.samples.len(),
        0 <= k95 < m.samples.len(),
        0 <= k99 < m.samples.len(),
        -50 < 100 * k50 - 50 * (m.samples.len() - 1) <= 50,
        -50 < 100 * k95 - 95 * (m.samples.len() - 1) <= 50,
        -50 < 100 * k99 - 99 * (m.samples.len() - 1) <= 50,
        0 <= i < block_lines(name, m, on).len(),
    ensures
        block_lines(name, m, on)[i] matches LineView::Figure { label, figure } ==> {
            let n = m.samples.len() as int;
            &&& label == "Min    "@ ==> figure == (FigureView::Latency { ns: t[0] as int })
            &&& label == "Max    "@ ==> figure == (FigureView::Latency { ns: t[n - 1] as int })
            &&& label == "P50    "@ ==> figure == (FigureView::Latency { ns: t[k50] as int })
            &&& label == "P95    "@ ==> figure == (FigureView::Latency { ns: t[k95] as int })
            &&& label == "P99    "@ ==> figure == (FigureView::Latency { ns: t[k99] as int })
            &&& label == "Avg    "@ ==> figure == (FigureView::Mean {
                num: total(m.samples) as int,
                den: n,
            })
            &&& label == "Jitter "@ ==> (figure matches FigureView::Deviation { num, den } && {
                &&& den > 0
                &&& num * (n * n * n) == squared_deviations(m.samples, n, total(m.samples) as int)
                    * den
            })
            &&& label == "Loss   "@ ==> (figure matches FigureView::Share { num, den } && {
                &&& den > 0
                &&& m.total_sent > 0 ==> num * m.total_sent == 100 * m.timeouts * den
                &&& m.total_sent == 0 ==> num == 0
            })
        },
{
    let s = m.samples;
    let n = s.len() as int;
    lemma_ordered_unique(s, t);
    t.to_multiset_ensures();
    s.to_multiset_ensures();
    lemma_percentile_by_nearest_rank(s, Percent { num: 50, den: 1 }, t, k50);
    lemma_percentile_by_nearest_rank(s, Percent { num: 95, den: 1 }, t, k95);
    lemma_percentile_by_nearest_rank(s, Percent { num: 99, den: 1 }, t, k99);
    lemma_jitter_figure(m);
    lemma_labels();
    if 3 <= i < 11 {
        assert(block_lines(name, m, on)[i] == figures(m)[i - 3]);
    }
}

/// The block of an exchange with latencies has twelve lines: an empty one, the header, and, between
/// the two lines of a box, a number under each of the eight labels, in this order.
pub proof fn lemma_block_layout(name: Seq<char>, m: MetricsView, on: bool)
    requires
        m.samples.len() > 0,
    ensures
        block_lines(name, m, on).len() == 12,
        block_lines(name, m, on)[0] == (LineView::Text { text: seq![] }),
        block_lines(name, m, on)[2] == (LineView::Text {
            text: "  ┌──────────────────────────────────────────┐"@,
        }),
        has_label(block_lines(name, m, on)[3], "Min    "@),
        has_label(block_lines(name, m, on)[4], "Avg    "@),
        has_label(block_lines(name, m, on)[5], "Max    "@),
        has_label(block_lines(name, m, on)[6], "P50    "@),
        has_label(block_lines(name, m, on)[7], "P95    "@),
        has_label(block_lines(name, m, on)[8], "P99    "@),
        has_label(block_lines(name, m, on)[9], "Jitter "@),
        has_label(block_lines(name, m, on)[10], "Loss   "@),
        block_lines(name, m, on)[11] == (LineView::Text {
            text: "  └──────────────────────────────────────────┘"@,
        }),
{
}

/// Whether a line shows a number behind the given label.
pub open spec fn has_label(line: LineView, label: Seq<char>) -> bool {
    line matches LineView::Figure { label: shown, figure } && shown == label
}

/// The block of an exchange without latencies has three lines: an empty one, the header, and a
/// dimmed remark that there is no data.
pub proof fn lemma_empty_block_layout(name: Seq<char>, m: MetricsView, on: bool)
    requires
        m.samples.len() == 0,
    ensures
        block_lines(name, m, on).len() == 3,
        block_lines(name, m, on)[0] == (LineView::Text { text: seq![] }),
        block_lines(name, m, on)[2] == (LineView::Text {
            text: "    "@ + styled("No data yet…"@, "2"@, on),
        }),
{
}

/// The header of each block shows the exchange's name, whether its session stands, and its counters
/// of pings and of ended sessions.
pub proof fn lemma_block_header(name: Seq<char>, m: MetricsView, on: bool)
    ensures
        block_lines(name, m, on).len() > 1,
        block_lines(name, m, on)[1] == (LineView::Text {
            text: "  "@ + shown_name(name, on) + "  "@ + (if m.connected {
                styled("🟢 LIVE"@, "32"@, on)
            } else {
                styled("🔴 DOWN"@, "31"@, on)
            }) + "   samples: "@ + decimal(m.total_sent as nat) + "   reconnects: "@ + decimal(
                m.reconnects as nat,
            ),
        }),
{
}

/// The parts of a header, in their order.
pub proof fn lemma_header_parts(
    name: Seq<char>,
    status: Seq<char>,
    total_sent: u64,
    reconnects: u32,
)
    ensures
        header(name, status, total_sent, reconnects) == "  "@ + name + "  "@ + status
            + "   samples: "@ + decimal(total_sent as nat) + "   reconnects: "@ + decimal(
            reconnects as nat,
        ),
{
}

/// The head of a report is its title, with the time, between two dividers; at its end stands a
/// divider between two empty lines. The dividers are cyan and 58 characters wide, the title is cyan
/// and bold.
pub proof fn lemma_report_frame(at: Moment, date: Date, on: bool, i: int)
    ensures
        head_lines(at, date, on).len() == 4,
        head_lines(at, date, on)[0] == (LineView::Text { text: seq![] }),
        head_lines(at, date, on)[1] == (LineView::Text { text: styled(divider(), "36"@, on) }),
        head_lines(at, date, on)[2] == (LineView::Text {
            text: styled(
                "  📊  LATENCY REPORT  ·  "@ + report_time(at, date),
                "1;"@ + "36"@,
                on,
            ),
        }),
        head_lines(at, date, on)[3] == (LineView::Text { text: styled(divider(), "36"@, on) }),
        end_lines(on).len() == 3,
        end_lines(on)[0] == (LineView::Text { text: seq![] }),
        end_lines(on)[1] == (LineView::Text { text: styled(divider(), "36"@, on) }),
        end_lines(on)[2] == (LineView::Text { text: seq![] }),
        divider().len() == 58,
        0 <= i < 58 ==> divider()[i] == '═',
        title(at, date) == "  📊  LATENCY REPORT  ·  "@ + report_time(at, date),
{
}

/// The line for a latency: the time, the mark of its speed, the exchange's name, and the latency in
/// the colour of its speed.
pub proof fn lemma_live_line_parts(
    at: Moment,
    exchange: Seq<char>,
    ns: u64,
    latency: Seq<char>,
    on: bool,
)
    ensures
        ns < 50_000_000 ==> shown_live(at, exchange, ns, latency, on) == live_time(at) + "  "@
            + styled("●"@, "32"@, on) + "  "@ + shown_name(exchange, on) + "  "@ + styled(
            latency,
            "32"@,
            on,
        ),
        50_000_000 <= ns < 150_000_000 ==> shown_live(at, exchange, ns, latency, on) == live_time(
            at,
        ) + "  "@ + styled("◉"@, "33"@, on) + "  "@ + shown_name(exchange, on) + "  "@ + styled(
            latency,
            "33"@,
            on,
        ),
        150_000_000 <= ns ==> shown_live(at, exchange, ns, latency, on) == live_time(at) + "  "@
            + styled("○"@, "31"@, on) + "  "@ + shown_name(exchange, on) + "  "@ + styled(
            latency,
            "31"@,
            on,
        ),
{
}

/// The parts of a live line, in their order.
pub proof fn lemma_live_layout(
    time: Seq<char>,
    mark: Seq<char>,
    name: Seq<char>,
    latency: Seq<char>,
)
    ensures
        live_layout(time, mark, name, latency) == time + "  "@ + mark + "  "@ + name + "  "@
            + latency,
{
}

/// The line of a number: its label, and its text in the colour of its speed; a share has no speed
/// and no colour.
pub proof fn lemma_figure_line_parts(
    label: Seq<char>,
    text: Seq<char>,
    ns: u64,
    ratio: Ratio,
    spread: Spread,
    on: bool,
)
    ensures
        figure_layout(label, text) == "  │  "@ + label + ": "@ + text,
        (Figure::Latency { ns }).in_band() == Some(latency_band(ns as int)),
        (Figure::Mean { ratio }).in_band() == Some(ratio.in_band()),
        (Figure::Deviation { spread }).in_band() == Some(spread.in_band()),
        (Figure::Share { percent: ratio }).in_band() is None,
        shown_figure(text, None, on) == text,
        shown_figure(text, Some(Band::Fast), on) == styled(text, "32"@, on),
        shown_figure(text, Some(Band::Fair), on) == styled(text, "33"@, on),
        shown_figure(text, Some(Band::Slow), on) == styled(text, "31"@, on),
{
}

/// The banner: a cyan box with the name of the monitor in bold, and its settings below.
pub proof fn lemma_banner_parts(config: Config, on: bool)
    ensures
        banner_lines(config, on).len() == 5,
        banner_lines(config, on)[0] == styled(
            "╔══════════════════════════════════════════════════════════════════╗"@,
            "36"@,
            on,
        ),
        banner_lines(config, on)[1] == styled(
            "║  🚀  ws-latency-monitor  ·  Binance · Coinbase · Poly · Mexico  ║"@,
            "1;"@ + "36"@,
            on,
        ),
        banner_lines(config, on)[2] == styled(
            "╚══════════════════════════════════════════════════════════════════╝"@,
            "36"@,
            on,
        ),
        banner_lines(config, on)[3] == "  Interval : "@ + decimal(config.interval as nat)
            + "ms  |  Window : "@ + decimal(config.window as nat) + " samples  |  Report : "@
            + decimal(config.report as nat) + "s  |  Timeout : "@ + decimal(config.timeout as nat)
            + "ms"@,
        banner_lines(config, on)[4] == Seq::<char>::empty(),
        settings(config) == banner_lines(config, on)[3],
{
}

/// What is said of a line and of a number is what it holds.
pub proof fn lemma_line_views_are_faithful(line: Line, figure: Figure, lines: Seq<Line>, i: int)
    ensures
        match line {
            Line::Text { text } => line@ == (LineView::Text { text: text@ }),
            Line::Figure { label, figure: f } => line@ == (LineView::Figure {
                label: label@,
                figure: f@,
            }),
        },
        match figure {
            Figure::Latency { ns } => figure@ == (FigureView::Latency { ns: ns as int }),
            Figure::Mean { ratio } => figure@ == (FigureView::Mean {
                num: ratio.num as int,
                den: ratio.den as int,
            }),
            Figure::Deviation { spread } => figure@ == (FigureView::Deviation {
                num: spread.num.value(),
                den: spread.den as int,
            }),
            Figure::Share { percent } => figure@ == (FigureView::Share {
                num: percent.num as int,
                den: percent.den as int,
            }),
        },
        lines_of(lines).len() == lines.len(),
        0 <= i < lines.len() ==> lines_of(lines)[i] == lines[i]@,
{
}

/// The square of the jitter is the mean of the squared distances from the mean.
proof fn lemma_jitter_figure(m: MetricsView)
    requires
        m.samples.len() > 0,
    ensures
        figures(m)[6] matches LineView::Figure { label, figure } && (
        figure matches FigureView::Deviation { num, den } && {
            let n = m.samples.len() as int;
            &&& den > 0
            &&& num * (n * n * n) == squared_deviations(m.samples, n, total(m.samples) as int)
                * den
        }),
{
    let s = m.samples;
    let n = s.len() as int;
    let t = total(s) as int;
    let q = scaled_squares(s, s.len()) - t * t;
    let all = squared_deviations(s, n, t);
    lemma_variance(s);
    assert(n * q == all);
    assert(all / n == q) by (nonlinear_arith)
        requires
            n * q == all,
            n > 0,
    ;
    assert(n * n > 0 && q * (n * n * n) == all * (n * n)) by (nonlinear_arith)
        requires
            n * q == all,
            n > 0,
    ;
    if n == 1 {
        lemma_total_adds(seq![], seq![], s[0]);
        lemma_deviations_add(seq![], seq![], s[0], n, t);
        assert(s =~= seq![s[0]]);
        assert(all == 0) by (nonlinear_arith)
            requires
                all == (n * s[0] - t) * (n * s[0] - t),
                n == 1,
                t == s[0],
        ;
    }
}

/// No two numbers stand under the same label.
proof fn lemma_labels()
    ensures
        forall|m: MetricsView, i: int, j: int|
            0 <= i < 8 && 0 <= j < 8 && #[trigger] figures(m)[i]->label == #[trigger] figures(
                m,
            )[j]->label ==> i == j,
{
    reveal_strlit("Min    ");
    reveal_strlit("Avg    ");
    reveal_strlit("Max    ");
    reveal_strlit("P50    ");
    reveal_strlit("P95    ");
    reveal_strlit("P99    ");
    reveal_strlit("Jitter ");
    reveal_strlit("Loss   ");
    assert("Min    "@[1] == 'i' && "Max    "@[1] == 'a' && "Min    "@[0] == 'M');
    assert("Avg    "@[0] == 'A' && "Max    "@[0] == 'M');
    assert("P50    "@[0] == 'P' && "P50    "@[1] == '5');
    assert("P95    "@[0] == 'P' && "P95    "@[1] == '9' && "P95    "@[2] == '5');
    assert("P99    "@[0] == 'P' && "P99    "@[1] == '9' && "P99    "@[2] == '9');
    assert("Jitter "@[0] == 'J' && "Loss   "@[0] == 'L');
}

} // verus!
