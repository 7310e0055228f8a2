use colored::Colorize;
use ws_latency_monitor::aggregator::{notice, Aggregator, Notice};
use ws_latency_monitor::band::{band_of, Band, Ratio, Spread};
use ws_latency_monitor::clock::{
    live_time_text, report_time_text, Moment, FIRST_SECOND, LAST_SECOND,
};
use ws_latency_monitor::config::Config;
use ws_latency_monitor::exchange::{exchange_list, exchange_names, Event};
use ws_latency_monitor::report::{
    banner, block, figure_line, header_text, live_line, report, Figure, Line,
};
use ws_latency_monitor::style::{
    color_mark, color_ms, color_name, colours_on, dim, paint, paint_bold, Hue,
};
use ws_latency_monitor::text::{align_right, push_decimal, same_text};
use ws_latency_monitor::wide::Wide;

const MS: u64 = 1_000_000;

fn texts(lines: &[Line]) -> Vec<String> {
    lines
        .iter()
        .map(|line| match line {
            Line::Text { text } => text.clone(),
            Line::Figure { label, .. } => format!("<{label}>"),
        })
        .collect()
}

#[test]
fn exchanges_are_listed() {
    let list = exchange_list();
    let names: Vec<&str> = list.iter().map(|e| e.name).collect();
    assert_eq!(names, exchange_names());
    assert_eq!(names, vec!["Binance", "Coinbase", "Polymarket", "Mexico"]);
    assert_eq!(list[0].subscribe_msg, None);
    assert_eq!(list[2].subscribe_msg, Some("{\"assets_ids\":[],\"type\":\"market\"}"));
    assert_eq!(list[3].url, "wss://wbs.mexc.com/ws");
    assert_eq!(
        list[3].subscribe_msg,
        Some("{\"method\":\"SUBSCRIPTION\",\"params\":[\"spot@public.deals.v3.api@BTCUSDT\"]}")
    );
}

#[test]
fn defaults() {
    let config = Config { interval: 1000, report: 10, window: 100, timeout: 5000, max_reconnects: 0 };
    assert_eq!(Config::default(), config);
}

#[test]
fn text_helpers() {
    assert_eq!(align_right("ab", 5), "   ab");
    assert_eq!(align_right("é…", 3), " é…");
    assert_eq!(align_right("abcdef", 5), "abcdef");
    let mut out = "n=".to_string();
    push_decimal(&mut out, 0);
    out.push(' ');
    push_decimal(&mut out, u64::MAX);
    assert_eq!(out, "n=0 18446744073709551615");
    assert!(same_text("a", "a") && !same_text("a", "b"));
}

#[test]
fn painted_texts() {
    assert_eq!(paint("x", Hue::Red, true), "\x1b[31mx\x1b[0m");
    assert_eq!(paint("x", Hue::Green, true), "\x1b[32mx\x1b[0m");
    assert_eq!(paint("x", Hue::Yellow, true), "\x1b[33mx\x1b[0m");
    assert_eq!(paint("x", Hue::Blue, true), "\x1b[34mx\x1b[0m");
    assert_eq!(paint("x", Hue::Magenta, true), "\x1b[35mx\x1b[0m");
    assert_eq!(paint("x", Hue::Cyan, true), "\x1b[36mx\x1b[0m");
    assert_eq!(paint_bold("x", Hue::White, true), "\x1b[1;37mx\x1b[0m");
    assert_eq!(dim("x", true), "\x1b[2mx\x1b[0m");
    assert_eq!(paint("", Hue::Red, true), "\x1b[31m\x1b[0m");
    assert_eq!(
        paint("a\x1b[0mb\x1b[0m", Hue::Red, true),
        "\x1b[31ma\x1b[0m\x1b[31mb\x1b[0m\x1b[31m\x1b[0m"
    );
}

#[test]
fn plain_texts() {
    assert_eq!(paint("x", Hue::Red, false), "x");
    assert_eq!(paint_bold("x", Hue::Red, false), "x");
    assert_eq!(dim("x", false), "x");
    assert_eq!(paint("a\x1b[0mb", Hue::Red, false), "a\x1b[0mb");
    assert_eq!(color_name("Binance", false), "    Binance");
    assert_eq!(color_name("A longer name", false), "A longer name");
    assert_eq!(color_ms("1 ms", Band::Slow, false), "1 ms");
    assert_eq!(color_mark(Band::Fair, false), "◉");
}

/// The switch is one for the whole process, so all that depends on it stands in this test.
#[test]
fn colours_are_those_of_the_terminal() {
    let hues = [
        (Hue::Red, "red"),
        (Hue::Green, "green"),
        (Hue::Yellow, "yellow"),
        (Hue::Blue, "blue"),
        (Hue::Magenta, "magenta"),
        (Hue::Cyan, "cyan"),
        (Hue::White, "white"),
    ];
    let texts = [
        "",
        "x",
        "◉ é…",
        "\x1b[0m",
        "a\x1b[0mb\x1b[0m\x1b[0mc",
        "\x1b[\x1b[0",
        "\x1b\x1b[0mm",
        "\x1b[31mred\x1b[0m and more",
    ];
    for on in [true, false] {
        colored::control::set_override(on);
        assert_eq!(colours_on(), on);
        for text in texts {
            for (hue, name) in hues {
                assert_eq!(paint(text, hue, on), text.color(name).to_string());
                assert_eq!(paint_bold(text, hue, on), text.color(name).bold().to_string());
            }
            assert_eq!(dim(text, on), text.dimmed().to_string());
        }
    }
}

#[test]
fn names_have_brand_colours() {
    assert_eq!(color_name("Binance", true), "\x1b[1;33m    Binance\x1b[0m");
    assert_eq!(color_name("Coinbase", true), "\x1b[1;34m   Coinbase\x1b[0m");
    assert_eq!(color_name("Polymarket", true), "\x1b[1;35m Polymarket\x1b[0m");
    assert_eq!(color_name("Mexico", true), "\x1b[1;36m     Mexico\x1b[0m");
    assert_eq!(color_name("binance", true), "\x1b[1;37m    binance\x1b[0m");
    assert_eq!(color_name("A longer name", true), "\x1b[1;37mA longer name\x1b[0m");
}

#[test]
fn speeds_have_colours() {
    assert_eq!(color_ms("   12.000 ms", Band::Fast, true), "\x1b[32m   12.000 ms\x1b[0m");
    assert_eq!(color_ms("   50.000 ms", Band::Fair, true), "\x1b[33m   50.000 ms\x1b[0m");
    assert_eq!(color_ms("  150.000 ms", Band::Slow, true), "\x1b[31m  150.000 ms\x1b[0m");
    // The colour goes by the value, not by its text.
    assert_eq!(color_ms("   50.000 ms", band_of(49_999_600), true), "\x1b[32m   50.000 ms\x1b[0m");
    assert_eq!(color_ms("  150.000 ms", band_of(150 * MS), true), "\x1b[31m  150.000 ms\x1b[0m");
    assert_eq!(color_mark(Band::Fast, true), "\x1b[32m●\x1b[0m");
    assert_eq!(color_mark(Band::Fair, true), "\x1b[33m◉\x1b[0m");
    assert_eq!(color_mark(Band::Slow, true), "\x1b[31m○\x1b[0m");
}

#[test]
fn times_are_utc() {
    let at = Moment { secs: 1_700_000_000, nanos: 123_999_999 };
    assert!(at.is_valid());
    assert_eq!(live_time_text(at), "22:13:20.123");
    assert_eq!(report_time_text(at), "2023-11-14 22:13:20 UTC");
    let epoch = Moment { secs: 0, nanos: 0 };
    assert_eq!(live_time_text(epoch), "00:00:00.000");
    assert_eq!(report_time_text(epoch), "1970-01-01 00:00:00 UTC");
    let before = Moment { secs: -1, nanos: 7_000_000 };
    assert_eq!(live_time_text(before), "23:59:59.007");
    assert_eq!(report_time_text(before), "1969-12-31 23:59:59 UTC");
}

#[test]
fn times_at_the_ends_of_the_calendar() {
    let first = Moment { secs: FIRST_SECOND, nanos: 0 };
    let last = Moment { secs: LAST_SECOND, nanos: 999_999_999 };
    assert_eq!(report_time_text(first), "-262143-01-01 00:00:00 UTC");
    assert_eq!(report_time_text(last), "+262142-12-31 23:59:59 UTC");
    assert_eq!(live_time_text(last), "23:59:59.999");
    assert!(!Moment { secs: LAST_SECOND + 1, nanos: 0 }.is_valid());
    assert!(!Moment { secs: FIRST_SECOND - 1, nanos: 0 }.is_valid());
    assert!(!Moment { secs: 0, nanos: 1_000_000_000 }.is_valid());
}

#[test]
fn live_lines() {
    let at = Moment { secs: 3_661, nanos: 5_000_000 };
    assert_eq!(
        live_line(at, "Binance", 12 * MS, "   12.000 ms", false),
        "01:01:01.005  ●      Binance     12.000 ms"
    );
    assert_eq!(
        live_line(at, "Mexico", 150 * MS, "  150.000 ms", true),
        "01:01:01.005  \x1b[31m○\x1b[0m  \x1b[1;36m     Mexico\x1b[0m  \x1b[31m  150.000 ms\x1b[0m"
    );
    let at = Moment { secs: 1_704_164_645, nanos: 678_000_000 };
    assert_eq!(
        live_line(at, "Binance", 12_500_000, "   12.500 ms", false),
        "03:04:05.678  ●      Binance     12.500 ms"
    );
}

#[test]
fn notices_of_events() {
    for on in [true, false] {
        assert_eq!(
            notice(Event::Latency { exchange: "Binance", ns: 5 }, on),
            Notice::Live { exchange: "Binance", ns: 5 }
        );
    }
    assert_eq!(
        notice(Event::Timeout { exchange: "Binance" }, true),
        Notice::Alert { text: "\x1b[1;31m  ⚠  TIMEOUT  Binance\x1b[0m".to_string() }
    );
    assert_eq!(
        notice(Event::Connected { exchange: "Binance" }, true),
        Notice::Line { text: "\x1b[32m  ✓  Binance connected\x1b[0m".to_string() }
    );
    assert_eq!(
        notice(Event::Disconnected { exchange: "Binance" }, true),
        Notice::Line { text: "\x1b[31m  ✗  Binance disconnected\x1b[0m".to_string() }
    );
}

#[test]
fn notices_without_colours() {
    let mut all = Aggregator::new(10);
    let shown: Vec<Notice> = [
        Event::Connected { exchange: "Binance" },
        Event::Timeout { exchange: "Binance" },
        Event::Disconnected { exchange: "Kraken" },
    ]
    .into_iter()
    .map(|event| {
        assert!(all.has_room(&event));
        all.handle(event, false)
    })
    .collect();
    assert_eq!(
        shown,
        vec![
            Notice::Line { text: "  ✓  Binance connected".to_string() },
            Notice::Alert { text: "  ⚠  TIMEOUT  Binance".to_string() },
            Notice::Line { text: "  ✗  Kraken disconnected".to_string() },
        ]
    );
}

#[test]
fn events_go_to_their_exchange() {
    let mut all = Aggregator::new(2);
    let events = [
        Event::Connected { exchange: "Coinbase" },
        Event::Latency { exchange: "Coinbase", ns: 3 },
        Event::Latency { exchange: "Coinbase", ns: 1 },
        Event::Latency { exchange: "Mexico", ns: 9 },
        Event::Timeout { exchange: "Coinbase" },
        Event::Latency { exchange: "Coinbase", ns: 2 },
        Event::Disconnected { exchange: "Mexico" },
    ];
    for event in events {
        assert!(all.has_room(&event));
        all.handle(event, false);
    }
    let coinbase = all.get("Coinbase").unwrap();
    assert_eq!(coinbase.samples(), vec![1, 2]);
    assert_eq!((coinbase.total_sent(), coinbase.timeouts()), (4, 1));
    assert!(coinbase.connected());
    let mexico = all.get("Mexico").unwrap();
    assert_eq!((mexico.samples(), mexico.reconnects()), (vec![9], 1));
    assert!(all.get("Binance").unwrap().is_empty());
    assert!(all.get("Kraken").is_none());
}

#[test]
fn an_unknown_exchange_is_shown_and_not_counted() {
    let mut all = Aggregator::new(2);
    let event = Event::Timeout { exchange: "Kraken" };
    assert!(all.has_room(&event));
    assert_eq!(all.handle(event, false), Notice::Alert { text: "  ⚠  TIMEOUT  Kraken".to_string() });
    for name in exchange_names() {
        assert_eq!(all.get(name).unwrap().total_sent(), 0);
    }
}

#[test]
fn a_block_without_data() {
    let all = Aggregator::new(2);
    assert_eq!(
        texts(&block("Binance", all.get("Binance").unwrap(), true)),
        vec![
            "".to_string(),
            "  \x1b[1;33m    Binance\x1b[0m  \x1b[31m🔴 DOWN\x1b[0m   samples: 0   reconnects: 0".to_string(),
            "    \x1b[2mNo data yet…\x1b[0m".to_string(),
        ]
    );
    assert_eq!(header_text("a", "b", 10, 2), "  a  b   samples: 10   reconnects: 2");
}

#[test]
fn a_block_with_data() {
    let mut all = Aggregator::new(10);
    for event in [
        Event::Connected { exchange: "Binance" },
        Event::Disconnected { exchange: "Binance" },
        Event::Disconnected { exchange: "Binance" },
        Event::Connected { exchange: "Binance" },
        Event::Latency { exchange: "Binance", ns: 10 * MS },
        Event::Timeout { exchange: "Binance" },
        Event::Latency { exchange: "Binance", ns: 20 * MS },
    ] {
        all.handle(event, false);
    }
    let lines = block("Binance", all.get("Binance").unwrap(), false);
    assert_eq!(lines.len(), 12);
    assert_eq!(texts(&lines)[1], "      Binance  🟢 LIVE   samples: 3   reconnects: 2");
    let lines = block("Binance", all.get("Binance").unwrap(), true);
    assert_eq!(
        texts(&lines)[1],
        "  \x1b[1;33m    Binance\x1b[0m  \x1b[32m🟢 LIVE\x1b[0m   samples: 3   reconnects: 2"
    );
}

#[test]
fn a_report() {
    let mut all = Aggregator::new(100);
    for event in [
        Event::Connected { exchange: "Binance" },
        Event::Latency { exchange: "Binance", ns: 10 * MS },
        Event::Latency { exchange: "Binance", ns: 200 * MS },
        Event::Timeout { exchange: "Binance" },
    ] {
        all.handle(event, false);
    }
    let r = report(&all, Moment { secs: 1_700_000_000, nanos: 0 }, false);
    let divider = "═".repeat(58);
    assert_eq!(
        texts(&r.head),
        vec![
            "".to_string(),
            divider.clone(),
            "  📊  LATENCY REPORT  ·  2023-11-14 22:13:20 UTC".to_string(),
            divider.clone(),
        ]
    );
    assert_eq!(texts(&r.end), vec!["".to_string(), divider, "".to_string()]);
    assert_eq!(r.blocks.len(), 4);
    let bar = "─".repeat(42);
    let mut shown = vec![
        "".to_string(),
        "      Binance  🟢 LIVE   samples: 3   reconnects: 0".to_string(),
        format!("  ┌{bar}┐"),
    ];
    for label in ["Min    ", "Avg    ", "Max    ", "P50    ", "P95    ", "P99    ", "Jitter ", "Loss   "] {
        shown.push(format!("<{label}>"));
    }
    shown.push(format!("  └{bar}┘"));
    assert_eq!(texts(&r.blocks[0]), shown);
    let figures: Vec<Figure> = r.blocks[0]
        .iter()
        .filter_map(|line| match line {
            Line::Figure { figure, .. } => Some(*figure),
            Line::Text { .. } => None,
        })
        .collect();
    let num = Wide { hi: 0, lo: 190 * 190 * 1_000_000_000_000 };
    assert_eq!(
        figures,
        vec![
            Figure::Latency { ns: 10 * MS },
            Figure::Mean { ratio: Ratio { num: 210_000_000, den: 2 } },
            Figure::Latency { ns: 200 * MS },
            Figure::Latency { ns: 200 * MS },
            Figure::Latency { ns: 200 * MS },
            Figure::Latency { ns: 200 * MS },
            Figure::Deviation { spread: Spread { num, den: 4 } },
            Figure::Share { percent: Ratio { num: 100, den: 3 } },
        ]
    );
    assert_eq!(figures[6].band(), Some(Band::Fair));
    assert_eq!(texts(&r.blocks[3])[1], "       Mexico  🔴 DOWN   samples: 0   reconnects: 0");
    assert_eq!(texts(&r.blocks[3])[2], "    No data yet…");
}

#[test]
fn figure_lines() {
    let fast = Figure::Latency { ns: 10 * MS };
    assert_eq!(
        figure_line("Min    ", "   10.000 ms", &fast, true),
        "  │  Min    : \x1b[32m   10.000 ms\x1b[0m"
    );
    let share = Figure::Share { percent: Ratio { num: 100, den: 3 } };
    for on in [true, false] {
        assert_eq!(figure_line("Loss   ", "    33.33 %", &share, on), "  │  Loss   :     33.33 %");
    }
    assert_eq!(figure_line("Min    ", "   10.000 ms", &fast, false), "  │  Min    :    10.000 ms");
}

#[test]
fn the_banner() {
    assert_eq!(banner(&Config::default(), false)[0], format!("╔{}╗", "═".repeat(66)));
    let lines = banner(&Config::default(), true);
    let bar = "═".repeat(66);
    assert_eq!(
        lines,
        vec![
            format!("\x1b[36m╔{bar}╗\x1b[0m"),
            "\x1b[1;36m║  🚀  ws-latency-monitor  ·  Binance · Coinbase · Poly · Mexico  ║\x1b[0m".to_string(),
            format!("\x1b[36m╚{bar}╝\x1b[0m"),
            "  Interval : 1000ms  |  Window : 100 samples  |  Report : 10s  |  Timeout : 5000ms".to_string(),
            "".to_string(),
        ]
    );
}
