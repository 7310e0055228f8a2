//! What holds of all that the monitor shows.

use crate::aggregator::{told, NoticeView};
use crate::band::latency_band;
use crate::clock::{live_time, report_time, time_of_day, year_text, Date, Moment};
use crate::config::Config;
use crate::exchange::EventView;
use crate::metrics::MetricsView;
use crate::report::{
    banner_lines, block_lines, box_bottom, box_top, divider, end_lines, figure_layout, figures,
    head_lines, header_line, settings, shown_figure, shown_live, title, Figure, LineView,
};
use crate::style::{rendered, shown_name, Hue};
use crate::text::{decimal, right_aligned};
use vstd::prelude::*;

verus! {

/// Whether a text holds no escape character, and so no escape sequence.
pub open spec fn plain(text: Seq<char>) -> bool {
    forall|i: int| 0 <= i < text.len() ==> text[i] != '\x1b'
}

/// Where colours are on, the text of a latency is green below 50 ms, yellow below 150 ms and red
/// from 150 ms on. Where they are off, it is left as it is.
pub proof fn lemma_latency_colours(text: Seq<char>, ns: u64)
    ensures
        ns < 50_000_000 ==> shown_figure(text, Some(latency_band(ns as int)), true) == rendered(
            text,
            Hue::Green.code(),
        ),
        50_000_000 <= ns < 150_000_000 ==> shown_figure(text, Some(latency_band(ns as int)), true)
            == rendered(text, Hue::Yellow.code()),
        150_000_000 <= ns ==> shown_figure(text, Some(latency_band(ns as int)), true) == rendered(
            text,
            Hue::Red.code(),
        ),
        shown_figure(text, Some(latency_band(ns as int)), false) == text,
{
}

/// Where colours are on, a name is bold and in the colour of its brand. Where they are off, it is
/// the right-aligned name.
pub proof fn lemma_name_colours(name: Seq<char>)
    ensures
        shown_name("Binance"@, true) == rendered("    Binance"@, "1;33"@),
        shown_name("Coinbase"@, true) == rendered("   Coinbase"@, "1;34"@),
        shown_name("Polymarket"@, true) == rendered(" Polymarket"@, "1;35"@),
        shown_name("Mexico"@, true) == rendered("     Mexico"@, "1;36"@),
        name != "Binance"@ && name != "Coinbase"@ && name != "Polymarket"@ && name != "Mexico"@
            ==> shown_name(name, true) == rendered(right_aligned(name, 11), "1;37"@),
        shown_name(name, false) == right_aligned(name, 11),
{
    reveal_strlit("Binance");
    reveal_strlit("Coinbase");
    reveal_strlit("Polymarket");
    reveal_strlit("Mexico");
    reveal_strlit("    Binance");
    reveal_strlit("   Coinbase");
    reveal_strlit(" Polymarket");
    reveal_strlit("     Mexico");
    reveal_strlit("1;");
    reveal_strlit("33");
    reveal_strlit("34");
    reveal_strlit("35");
    reveal_strlit("36");
    reveal_strlit("37");
    reveal_strlit("1;33");
    reveal_strlit("1;34");
    reveal_strlit("1;35");
    reveal_strlit("1;36");
    reveal_strlit("1;37");
    assert(right_aligned("Binance"@, 11) =~= "    Binance"@);
    assert(right_aligned("Coinbase"@, 11) =~= "   Coinbase"@);
    assert(right_aligned("Polymarket"@, 11) =~= " Polymarket"@);
    assert(right_aligned("Mexico"@, 11) =~= "     Mexico"@);
    assert(Hue::Yellow.bold_code() =~= "1;33"@);
    assert(Hue::Blue.bold_code() =~= "1;34"@);
    assert(Hue::Magenta.bold_code() =~= "1;35"@);
    assert(Hue::Cyan.bold_code() =~= "1;36"@);
    assert(Hue::White.bold_code() =~= "1;37"@);
    assert("Coinbase"@[0] != "Binance"@[0]);
    assert("Polymarket"@[0] != "Binance"@[0] && "Polymarket"@[0] != "Coinbase"@[0]);
    assert("Mexico"@.len() != "Binance"@.len() && "Mexico"@.len() != "Coinbase"@.len());
    assert("Mexico"@.len() != "Polymarket"@.len());
}

/// Where colours are off, the line for a latency holds no escape character.
pub proof fn lemma_plain_live_line(at: Moment, exchange: Seq<char>, ns: u64, latency: Seq<char>)
    requires
        at.valid(),
        plain(exchange),
        plain(latency),
    ensures
        plain(shown_live(at, exchange, ns, latency, false)),
{
    reveal_strlit("  ");
    reveal_strlit("●");
    reveal_strlit("◉");
    reveal_strlit("○");
    reveal_strlit(".");
    lemma_plain_time(at.secs as int);
    assert(plain(live_time(at)));
}

/// Where colours are off, what is shown of an event holds no escape character.
pub proof fn lemma_plain_notice(event: EventView)
    requires
        plain(event.about()),
    ensures
        told(event, false) matches NoticeView::Line { text } ==> plain(text),
        told(event, false) matches NoticeView::Alert { text } ==> plain(text),
{
    reveal_strlit("  ⚠  TIMEOUT  ");
    reveal_strlit("  ✓  ");
    reveal_strlit(" connected");
    reveal_strlit("  ✗  ");
    reveal_strlit(" disconnected");
}

/// Where colours are off, no line of a report's head or end holds an escape character.
pub proof fn lemma_plain_frame(at: Moment, date: Date, i: int)
    requires
        date.valid(),
    ensures
        0 <= i < head_lines(at, date, false).len() ==> plain_line(head_lines(at, date, false)[i]),
        0 <= i < end_lines(false).len() ==> plain_line(end_lines(false)[i]),
{
    reveal_strlit("  📊  LATENCY REPORT  ·  ");
    lemma_plain_date(at, date);
    assert(plain(divider()));
    assert(plain(title(at, date)));
}

/// Where colours are off, no finished line of an exchange's block holds an escape character.
pub proof fn lemma_plain_block(name: Seq<char>, m: MetricsView, i: int)
    requires
        plain(name),
        0 <= i < block_lines(name, m, false).len(),
    ensures
        plain_line(block_lines(name, m, false)[i]),
{
    lemma_plain_header(name, m);
    lemma_plain_boxes();
    assert(plain("    "@ + "No data yet…"@)) by {
        reveal_strlit("    ");
        reveal_strlit("No data yet…");
    }
    if m.samples.len() > 0 && 3 <= i < 11 {
        assert(block_lines(name, m, false)[i] == figures(m)[i - 3]);
    }
}

/// Where colours are off, the line of a number holds no escape character.
pub proof fn lemma_plain_figure_line(label: Seq<char>, text: Seq<char>, figure: Figure)
    requires
        plain(label),
        plain(text),
    ensures
        plain(figure_layout(label, shown_figure(text, figure.in_band(), false))),
{
    reveal_strlit("  │  ");
    reveal_strlit(": ");
}

/// Where colours are off, no line of the banner holds an escape character.
pub proof fn lemma_plain_banner(config: Config, i: int)
    requires
        0 <= i < banner_lines(config, false).len(),
    ensures
        plain(banner_lines(config, false)[i]),
{
    reveal_strlit("╔══════════════════════════════════════════════════════════════════╗");
    reveal_strlit("║  🚀  ws-latency-monitor  ·  Binance · Coinbase · Poly · Mexico  ║");
    reveal_strlit("╚══════════════════════════════════════════════════════════════════╝");
    reveal_strlit("  Interval : ");
    reveal_strlit("ms  |  Window : ");
    reveal_strlit(" samples  |  Report : ");
    reveal_strlit("s  |  Timeout : ");
    reveal_strlit("ms");
    lemma_plain_decimal(config.interval as nat);
    lemma_plain_decimal(config.window as nat);
    lemma_plain_decimal(config.report as nat);
    lemma_plain_decimal(config.timeout as nat);
    assert(plain(settings(config)));
}

/// Whether a line, where it is a finished one, holds no escape character.
pub open spec fn plain_line(line: LineView) -> bool {
    line matches LineView::Text { text } ==> plain(text)
}

/// The first line of an exchange's block holds no escape character.
proof fn lemma_plain_header(name: Seq<char>, m: MetricsView)
    requires
        plain(name),
    ensures
        plain_line(header_line(name, m, false)),
{
    reveal_strlit("  ");
    reveal_strlit("   samples: ");
    reveal_strlit("   reconnects: ");
    reveal_strlit("🟢 LIVE");
    reveal_strlit("🔴 DOWN");
    lemma_plain_decimal(m.total_sent as nat);
    lemma_plain_decimal(m.reconnects as nat);
}

/// The lines around an exchange's numbers hold no escape character.
proof fn lemma_plain_boxes()
    ensures
        plain_line(box_top()),
        plain_line(box_bottom()),
{
    reveal_strlit("  ┌──────────────────────────────────────────┐");
    reveal_strlit("  └──────────────────────────────────────────┘");
}

/// A number in decimal holds no escape character.
proof fn lemma_plain_decimal(n: nat)
    ensures
        plain(decimal(n)),
    decreases n,
{
    if n >= 10 {
        lemma_plain_decimal(n / 10);
    }
}

/// A time of day holds no escape character.
proof fn lemma_plain_time(secs: int)
    ensures
        plain(time_of_day(secs)),
{
    reveal_strlit(":");
}

/// The time of a report holds no escape character.
proof fn lemma_plain_date(at: Moment, date: Date)
    requires
        date.valid(),
    ensures
        plain(report_time(at, date)),
{
    reveal_strlit("-");
    reveal_strlit("+");
    reveal_strlit(" ");
    reveal_strlit(" UTC");
    lemma_plain_time(at.secs as int);
    if date.year > 9999 {
        lemma_plain_decimal(date.year as nat);
    }
    if date.year < -9999 {
        lemma_plain_decimal((-date.year) as nat);
    }
    assert(plain(year_text(date.year)));
}

} // verus!
