//! What the monitor shows: its banner, a line for each latency, and the report.
//!
//! Numbers with decimals are written by the caller: a [`Figure`] says exactly which number is
//! meant, and [`figure_line`] takes the text that the caller made of it.

use crate::aggregator::Aggregator;
use crate::band::{band_of, latency_band, Band, Ratio, Spread};
use crate::clock::{
    is_date_of, live_time, live_time_text, report_time, report_time_text, Date, Moment,
};
use crate::config::Config;
use crate::exchange::{exchange_names, names};
use crate::metrics::{Metrics, MetricsView};
use crate::stats::{at_percentile, ordered, squared_deviations, total, Percent};
use crate::stats::{lemma_ordered, lemma_ordered_members};
use crate::style::{
    band_hue, color_mark, color_ms, color_name, dim, dim_code, paint, paint_bold, shown_mark,
    shown_name, styled, Hue,
};
use crate::text::{decimal, push_decimal, push_repeated, repeated};
use vstd::prelude::*;
use vstd::string::StringExecFns;

verus! {

/// The width of the lines that divide the report.
pub const DIVIDER_WIDTH: usize = 58;

/// A number in the report.
#[derive(Clone, Copy, Debug, PartialEq, Eq)]
pub enum Figure {
    /// A latency in nanoseconds.
    Latency { ns: u64 },
    /// A mean in nanoseconds.
    Mean { ratio: Ratio },
    /// A standard deviation in nanoseconds.
    Deviation { spread: Spread },
    /// A share in percent.
    Share { percent: Ratio },
}

/// The number that a [`Figure`] means: a fraction, or the square root of a fraction.
pub enum FigureView {
    Latency { ns: int },
    Mean { num: int, den: int },
    Deviation { num: int, den: int },
    Share { num: int, den: int },
}

impl View for Figure {
    type V = FigureView;

    open spec fn view(&self) -> FigureView {
        match *self {
            Figure::Latency { ns } => FigureView::Latency { ns: ns as int },
            Figure::Mean { ratio } => FigureView::Mean {
                num: ratio.num as int,
                den: ratio.den as int,
            },
            Figure::Deviation { spread } => FigureView::Deviation {
                num: spread.num.value(),
                den: spread.den as int,
            },
            Figure::Share { percent } => FigureView::Share {
                num: percent.num as int,
                den: percent.den as int,
            },
        }
    }
}

impl Figure {
    /// The speed band of a latency, a mean or a deviation; a share has none.
    pub open spec fn in_band(self) -> Option<Band> {
        match self {
            Figure::Latency { ns } => Some(latency_band(ns as int)),
            Figure::Mean { ratio } => Some(ratio.in_band()),
            Figure::Deviation { spread } => Some(spread.in_band()),
            Figure::Share { .. } => None,
        }
    }

    /// The speed band of a latency, a mean or a deviation; a share has none.
    pub fn band(&self) -> (r: Option<Band>)
        ensures
            r == self.in_band(),
    {
        match self {
            Figure::Latency { ns } => Some(band_of(*ns)),
            Figure::Mean { ratio } => Some(ratio.band()),
            Figure::Deviation { spread } => Some(spread.band()),
            Figure::Share { .. } => None,
        }
    }
}

/// A line of the report.
#[derive(Debug, PartialEq, Eq)]
pub enum Line {
    /// A finished line.
    Text { text: String },
    /// A line that shows a number behind a label.
    Figure { label: &'static str, figure: Figure },
}

/// What a [`Line`] says.
pub enum LineView {
    Text { text: Seq<char> },
    Figure { label: Seq<char>, figure: FigureView },
}

impl View for Line {
    type V = LineView;

    open spec fn view(&self) -> LineView {
        match self {
            Line::Text { text } => LineView::Text { text: text@ },
            Line::Figure { label, figure } => LineView::Figure { label: label@, figure: figure@ },
        }
    }
}

/// What some lines say.
pub open spec fn lines_of(lines: Seq<Line>) -> Seq<LineView> {
    lines.map_values(|line: Line| line@)
}

/// A finished line.
pub open spec fn finished(text: Seq<char>) -> LineView {
    LineView::Text { text }
}

/// A report: its head, a block of lines for each exchange, and its end.
#[derive(Debug, PartialEq, Eq)]
pub struct Report {
    pub head: Vec<Line>,
    pub blocks: Vec<Vec<Line>>,
    pub end: Vec<Line>,
}

/// A percentage without decimals.
pub open spec fn whole(p: i32) -> Percent {
    Percent { num: p, den: 1 }
}

/// The mean of some latencies.
pub open spec fn mean(s: Seq<u64>) -> FigureView {
    FigureView::Mean { num: total(s) as int, den: s.len() as int }
}

/// The standard deviation of some latencies.
pub open spec fn deviation(s: Seq<u64>) -> FigureView {
    let n = s.len() as int;
    if n < 2 {
        FigureView::Deviation { num: 0, den: 1 }
    } else {
        FigureView::Deviation { num: squared_deviations(s, n, total(s) as int) / n, den: n * n }
    }
}

/// The share of the pings that were lost.
pub open spec fn loss(m: MetricsView) -> FigureView {
    FigureView::Share { num: m.loss().num as int, den: m.loss().den as int }
}

/// A number behind a label.
pub open spec fn labelled(label: Seq<char>, figure: FigureView) -> LineView {
    LineView::Figure { label, figure }
}

/// The numbers that the report shows of an exchange, in its order.
pub open spec fn figures(m: MetricsView) -> Seq<LineView> {
    let s = m.samples;
    seq![
        labelled("Min    "@, FigureView::Latency { ns: ordered(s)[0] as int }),
        labelled("Avg    "@, mean(s)),
        labelled("Max    "@, FigureView::Latency { ns: ordered(s).last() as int }),
        labelled("P50    "@, FigureView::Latency { ns: at_percentile(s, whole(50)) as int }),
        labelled("P95    "@, FigureView::Latency { ns: at_percentile(s, whole(95)) as int }),
        labelled("P99    "@, FigureView::Latency { ns: at_percentile(s, whole(99)) as int }),
        labelled("Jitter "@, deviation(s)),
        labelled("Loss   "@, loss(m)),
    ]
}

/// The first line of an exchange's block, given its name and its status as they are shown.
pub open spec fn header(
    name: Seq<char>,
    status: Seq<char>,
    total_sent: u64,
    reconnects: u32,
) -> Seq<char> {
    "  "@ + name + "  "@ + status + "   samples: "@ + decimal(total_sent as nat)
        + "   reconnects: "@ + decimal(reconnects as nat)
}

/// The text of an exchange's status.
pub open spec fn status_text(connected: bool) -> Seq<char> {
    if connected {
        "🟢 LIVE"@
    } else {
        "🔴 DOWN"@
    }
}

/// The colour of an exchange's status.
pub open spec fn status_hue(connected: bool) -> Hue {
    if connected {
        Hue::Green
    } else {
        Hue::Red
    }
}

/// An exchange's status, as it is shown.
pub open spec fn shown_status(connected: bool, on: bool) -> Seq<char> {
    styled(status_text(connected), status_hue(connected).code(), on)
}

/// The first line of an exchange's block, as it is shown.
pub open spec fn header_line(name: Seq<char>, m: MetricsView, on: bool) -> LineView {
    finished(
        header(shown_name(name, on), shown_status(m.connected, on), m.total_sent, m.reconnects),
    )
}

/// The line that says that there is no data.
pub open spec fn no_data_line(on: bool) -> LineView {
    finished("    "@ + styled("No data yet…"@, dim_code(), on))
}

/// The line above the numbers of an exchange.
pub open spec fn box_top() -> LineView {
    finished("  ┌──────────────────────────────────────────┐"@)
}

/// The line below the numbers of an exchange.
pub open spec fn box_bottom() -> LineView {
    finished("  └──────────────────────────────────────────┘"@)
}

/// The block of an exchange.
pub open spec fn block_lines(name: Seq<char>, m: MetricsView, on: bool) -> Seq<LineView> {
    let heading = seq![finished(seq![]), header_line(name, m, on)];
    if m.samples.len() == 0 {
        heading.push(no_data_line(on))
    } else {
        heading.push(box_top()) + figures(m).push(box_bottom())
    }
}

/// The line that divides the report.
pub open spec fn divider() -> Seq<char> {
    repeated('═', DIVIDER_WIDTH as nat)
}

/// The title of a report, given its date.
pub open spec fn title(at: Moment, date: Date) -> Seq<char> {
    "  📊  LATENCY REPORT  ·  "@ + report_time(at, date)
}

/// The line that divides the report, as it is shown.
pub open spec fn shown_divider(on: bool) -> LineView {
    finished(styled(divider(), Hue::Cyan.code(), on))
}

/// The head of a report, given its date.
pub open spec fn head_lines(at: Moment, date: Date, on: bool) -> Seq<LineView> {
    seq![
        finished(seq![]),
        shown_divider(on),
        finished(styled(title(at, date), Hue::Cyan.bold_code(), on)),
        shown_divider(on),
    ]
}

/// The end of a report.
pub open spec fn end_lines(on: bool) -> Seq<LineView> {
    seq![finished(seq![]), shown_divider(on), finished(seq![])]
}

/// The smallest and the largest latency are the ends of their ascending order.
proof fn lemma_extremes(s: Seq<u64>, least: u64, most: u64)
    requires
        s.contains(least),
        s.contains(most),
        forall|i: int| 0 <= i < s.len() ==> least <= #[trigger] s[i] <= most,
    ensures
        least == ordered(s)[0],
        most == ordered(s).last(),
{
    lemma_ordered(s);
    lemma_ordered_members(s, least);
    lemma_ordered_members(s, most);
    lemma_ordered_members(s, ordered(s)[0]);
    lemma_ordered_members(s, ordered(s).last());
}

/// A line that is empty.
fn blank() -> (r: Line)
    ensures
        r@ == finished(seq![]),
{
    let text = String::new();
    Line::Text { text }
}

/// A line that divides the report.
fn divider_line(on: bool) -> (r: Line)
    ensures
        r@ == shown_divider(on),
{
    let mut text = String::new();
    proof {
        reveal_strlit("═");
    }
    push_repeated(&mut text, "═", DIVIDER_WIDTH);
    Line::Text { text: paint(text.as_str(), Hue::Cyan, on) }
}

/// The first line of an exchange's block, given its name and its status as they are shown.
pub fn header_text(name: &str, status: &str, total_sent: u64, reconnects: u32) -> (r: String)
    ensures
        r@ == header(name@, status@, total_sent, reconnects),
{
    let mut out = String::new();
    out.append("  ");
    out.append(name);
    out.append("  ");
    out.append(status);
    out.append("   samples: ");
    push_decimal(&mut out, total_sent);
    out.append("   reconnects: ");
    push_decimal(&mut out, reconnects as u64);
    out
}

/// The block of lines that the report shows of an exchange.
pub fn block(name: &str, m: &Metrics, on: bool) -> (r: Vec<Line>)
    ensures
        lines_of(r@) == block_lines(name@, m@, on),
{
    let title: String = color_name(name, on);
    let status: String = if m.connected() {
        paint("🟢 LIVE", Hue::Green, on)
    } else {
        paint("🔴 DOWN", Hue::Red, on)
    };
    let head: String = header_text(
        title.as_str(),
        status.as_str(),
        m.total_sent(),
        m.reconnects(),
    );
    let mut lines: Vec<Line> = Vec::new();
    lines.push(blank());
    lines.push(Line::Text { text: head });
    match (m.min(), m.max()) {
        (Some(least), Some(most)) => {
            let top = "  ┌──────────────────────────────────────────┐".to_owned();
            lines.push(Line::Text { text: top });
            let avg: Ratio = m.avg();
            let jitter: Spread = m.jitter();
            proof {
                let s = m@.samples;
                lemma_extremes(s, least, most);
                if s.len() >= 2 {
                    let n = s.len() as int;
                    let num = jitter.num.value();
                    let all = squared_deviations(s, n, total(s) as int);
                    assert(all / n == num) by (nonlinear_arith)
                        requires
                            n * num == all,
                            n > 0,
                    ;
                }
            }
            lines.push(
                Line::Figure { label: "Min    ", figure: Figure::Latency { ns: least } },
            );
            lines.push(Line::Figure { label: "Avg    ", figure: Figure::Mean { ratio: avg } });
            lines.push(Line::Figure { label: "Max    ", figure: Figure::Latency { ns: most } });
            let p50: u64 = m.percentile(Percent { num: 50, den: 1 });
            lines.push(Line::Figure { label: "P50    ", figure: Figure::Latency { ns: p50 } });
            let p95: u64 = m.percentile(Percent { num: 95, den: 1 });
            lines.push(Line::Figure { label: "P95    ", figure: Figure::Latency { ns: p95 } });
            let p99: u64 = m.percentile(Percent { num: 99, den: 1 });
            lines.push(Line::Figure { label: "P99    ", figure: Figure::Latency { ns: p99 } });
            lines.push(
                Line::Figure { label: "Jitter ", figure: Figure::Deviation { spread: jitter } },
            );
            let percent: Ratio = m.loss_pct();
            lines.push(Line::Figure { label: "Loss   ", figure: Figure::Share { percent } });
            let bottom = "  └──────────────────────────────────────────┘".to_owned();
            lines.push(Line::Text { text: bottom });
        },
        _ => {
            let shown: String = dim("No data yet…", on);
            let mut text = String::new();
            text.append("    ");
            text.append(shown.as_str());
            lines.push(Line::Text { text });
        },
    }
    assert(lines_of(lines@) =~= block_lines(name@, m@, on));
    lines
}

/// The report on all exchanges.
pub fn report(aggregator: &Aggregator, at: Moment, on: bool) -> (r: Report)
    requires
        aggregator.wf(),
        at.valid(),
    ensures
        exists|date: Date| #[trigger]
            is_date_of(date, at) && lines_of(r.head@) == head_lines(at, date, on),
        r.blocks@.len() == names().len(),
        forall|i: int|
            0 <= i < names().len() ==> lines_of((#[trigger] r.blocks@[i])@) == block_lines(
                names()[i],
                aggregator@[names()[i]],
                on,
            ),
        lines_of(r.end@) == end_lines(on),
{
    let time: String = report_time_text(at);
    let ghost date = choose|date: Date| #[trigger]
        is_date_of(date, at) && time@ == report_time(at, date);
    let mut text = String::new();
    text.append("  📊  LATENCY REPORT  ·  ");
    text.append(time.as_str());
    let mut head: Vec<Line> = Vec::new();
    head.push(blank());
    head.push(divider_line(on));
    head.push(Line::Text { text: paint_bold(text.as_str(), Hue::Cyan, on) });
    head.push(divider_line(on));
    assert(lines_of(head@) =~= head_lines(at, date, on));

    let known: Vec<&'static str> = exchange_names();
    let mut blocks: Vec<Vec<Line>> = Vec::new();
    let mut i: usize = 0;
    while i < known.len()
        invariant
            aggregator.wf(),
            i <= known@.len(),
            known@.len() == names().len(),
            forall|j: int| 0 <= j < known@.len() ==> (#[trigger] known@[j])@ == names()[j],
            blocks@.len() == i,
            forall|j: int|
                0 <= j < i ==> lines_of((#[trigger] blocks@[j])@) == block_lines(
                    names()[j],
                    aggregator@[names()[j]],
                    on,
                ),
        decreases known@.len() - i,
    {
        if let Some(m) = aggregator.get(known[i]) {
            blocks.push(block(known[i], m, on));
        }
        i = i + 1;
    }

    let mut end: Vec<Line> = Vec::new();
    end.push(blank());
    end.push(divider_line(on));
    end.push(blank());
    assert(lines_of(end@) =~= end_lines(on));
    Report { head, blocks, end }
}

/// A line with a number, given the number as it is shown.
pub open spec fn figure_layout(label: Seq<char>, shown: Seq<char>) -> Seq<char> {
    "  │  "@ + label + ": "@ + shown
}

/// The text of a number as it is shown: in the colour of its speed, or plain where it has none.
pub open spec fn shown_figure(text: Seq<char>, band: Option<Band>, on: bool) -> Seq<char> {
    match band {
        Some(b) => styled(text, band_hue(b).code(), on),
        None => text,
    }
}

/// A line with a number, given its text.
pub fn figure_line(label: &str, text: &str, figure: &Figure, on: bool) -> (r: String)
    ensures
        r@ == figure_layout(label@, shown_figure(text@, figure.in_band(), on)),
{
    let shown: String = match figure.band() {
        Some(band) => color_ms(text, band, on),
        None => text.to_owned(),
    };
    let mut out = String::new();
    out.append("  │  ");
    out.append(label);
    out.append(": ");
    out.append(shown.as_str());
    out
}

/// The line for a latency, given its parts as they are shown.
pub open spec fn live_layout(
    time: Seq<char>,
    mark: Seq<char>,
    name: Seq<char>,
    latency: Seq<char>,
) -> Seq<char> {
    time + "  "@ + mark + "  "@ + name + "  "@ + latency
}

/// The line for a latency, given its parts as they are shown.
pub fn live_layout_text(time: &str, mark: &str, name: &str, latency: &str) -> (r: String)
    ensures
        r@ == live_layout(time@, mark@, name@, latency@),
{
    let mut out = String::new();
    out.append(time);
    out.append("  ");
    out.append(mark);
    out.append("  ");
    out.append(name);
    out.append("  ");
    out.append(latency);
    out
}

/// The line for a latency of `ns` nanoseconds, given the text of the latency, as it is shown.
pub open spec fn shown_live(
    at: Moment,
    exchange: Seq<char>,
    ns: u64,
    latency: Seq<char>,
    on: bool,
) -> Seq<char> {
    let band = latency_band(ns as int);
    live_layout(
        live_time(at),
        shown_mark(band, on),
        shown_name(exchange, on),
        shown_figure(latency, Some(band), on),
    )
}

/// The line for a latency of `ns` nanoseconds, given the text of the latency.
pub fn live_line(at: Moment, exchange: &str, ns: u64, latency: &str, on: bool) -> (r: String)
    requires
        at.valid(),
    ensures
        r@ == shown_live(at, exchange@, ns, latency@, on),
{
    let band = band_of(ns);
    let time: String = live_time_text(at);
    let mark: String = color_mark(band, on);
    let name: String = color_name(exchange, on);
    let shown: String = color_ms(latency, band, on);
    live_layout_text(time.as_str(), mark.as_str(), name.as_str(), shown.as_str())
}

/// The line of the banner that tells the settings.
pub open spec fn settings(config: Config) -> Seq<char> {
    "  Interval : "@ + decimal(config.interval as nat) + "ms  |  Window : "@ + decimal(
        config.window as nat,
    ) + " samples  |  Report : "@ + decimal(config.report as nat) + "s  |  Timeout : "@ + decimal(
        config.timeout as nat,
    ) + "ms"@
}

/// The lines that the monitor shows when it starts.
pub open spec fn banner_lines(config: Config, on: bool) -> Seq<Seq<char>> {
    seq![
        styled(
            "╔══════════════════════════════════════════════════════════════════╗"@,
            Hue::Cyan.code(),
            on,
        ),
        styled(
            "║  🚀  ws-latency-monitor  ·  Binance · Coinbase · Poly · Mexico  ║"@,
            Hue::Cyan.bold_code(),
            on,
        ),
        styled(
            "╚══════════════════════════════════════════════════════════════════╝"@,
            Hue::Cyan.code(),
            on,
        ),
        settings(config),
        seq![],
    ]
}

/// The lines that the monitor shows when it starts.
pub fn banner(config: &Config, on: bool) -> (r: Vec<String>)
    ensures
        r@.len() == banner_lines(*config, on).len(),
        forall|i: int|
            0 <= i < r@.len() ==> (#[trigger] r@[i])@ == banner_lines(*config, on)[i],
{
    let mut line = String::new();
    line.append("  Interval : ");
    push_decimal(&mut line, config.interval);
    line.append("ms  |  Window : ");
    push_decimal(&mut line, config.window as u64);
    line.append(" samples  |  Report : ");
    push_decimal(&mut line, config.report);
    line.append("s  |  Timeout : ");
    push_decimal(&mut line, config.timeout);
    line.append("ms");
    vec![
        paint("╔══════════════════════════════════════════════════════════════════╗", Hue::Cyan, on),
        paint_bold(
            "║  🚀  ws-latency-monitor  ·  Binance · Coinbase · Poly · Mexico  ║",
            Hue::Cyan,
            on,
        ),
        paint("╚══════════════════════════════════════════════════════════════════╝", Hue::Cyan, on),
        line,
        String::new(),
    ]
}

} // verus!
