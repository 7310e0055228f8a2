//! What the board shows after any series of events.

use crate::aggregator::{
    fresh_board, has_room_for, noted, told, Board, Notice, NoticeView,
};
use crate::exchange::{names, EventView};
use crate::metrics::{latest, MetricsView};
use crate::metrics_laws::lemma_latest_push;
use crate::session::SessionView;
use crate::session_laws::{
    after, expected, fresh, lemma_connection_reported_first, lemma_every_ping_accounted,
    lemma_reports_name_exchange, pings, reports, settled, Trace,
};
use crate::style::styled;
use vstd::prelude::*;

verus! {

/// The board after a series of events, the oldest first.
pub open spec fn noted_all(board: Board, events: Seq<EventView>) -> Board
    decreases events.len(),
{
    if events.len() == 0 {
        board
    } else {
        noted(noted_all(board, events.drop_last()), events.last())
    }
}

/// The latencies that the events report of an exchange, the oldest first.
pub open spec fn latencies_of(events: Seq<EventView>, name: Seq<char>) -> Seq<u64>
    decreases events.len(),
{
    if events.len() == 0 {
        seq![]
    } else {
        let earlier = latencies_of(events.drop_last(), name);
        match events.last() {
            EventView::Latency { exchange, ns } => if exchange == name {
                earlier.push(ns)
            } else {
                earlier
            },
            _ => earlier,
        }
    }
}

/// How many timeouts the events report of an exchange.
pub open spec fn timeouts_of(events: Seq<EventView>, name: Seq<char>) -> nat
    decreases events.len(),
{
    if events.len() == 0 {
        0
    } else {
        timeouts_of(events.drop_last(), name) + if events.last() is Timeout
            && events.last().about() == name {
            1nat
        } else {
            0nat
        }
    }
}

/// How many ends of sessions the events report of an exchange.
pub open spec fn ends_of(events: Seq<EventView>, name: Seq<char>) -> nat
    decreases events.len(),
{
    if events.len() == 0 {
        0
    } else {
        ends_of(events.drop_last(), name) + if events.last() is Disconnected
            && events.last().about() == name {
            1nat
        } else {
            0nat
        }
    }
}

/// Whether the last start or end of a session that the events report of an exchange is a start.
pub open spec fn stands(events: Seq<EventView>, name: Seq<char>) -> bool
    decreases events.len(),
{
    if events.len() == 0 {
        false
    } else if events.last().about() == name && events.last() is Connected {
        true
    } else if events.last().about() == name && events.last() is Disconnected {
        false
    } else {
        stands(events.drop_last(), name)
    }
}

/// An event changes nothing but the metrics of the exchange that it is about; one about an
/// unknown exchange changes nothing at all.
pub proof fn lemma_event_touches_its_exchange(board: Board, event: EventView, name: Seq<char>)
    ensures
        noted(board, event).dom() == board.dom(),
        name != event.about() ==> noted(board, event)[name] == board[name],
        !board.contains_key(event.about()) ==> noted(board, event) == board,
{
}

/// What an event does to the metrics of its exchange: a latency is counted as a ping and put behind
/// the latencies that are kept; a timeout is counted as a ping and as lost; the start of a session
/// is noted; its end is noted and counted.
pub proof fn lemma_event_is_counted(board: Board, name: Seq<char>, ns: u64)
    requires
        board.contains_key(name),
        board[name].total_sent < u64::MAX,
        board[name].timeouts < u64::MAX,
        board[name].reconnects < u32::MAX,
    ensures
        ({
            let m = board[name];
            &&& noted(board, EventView::Latency { exchange: name, ns })[name] == (MetricsView {
                samples: latest(m.samples + seq![ns], m.window),
                total_sent: (m.total_sent + 1) as u64,
                ..m
            })
            &&& noted(board, EventView::Timeout { exchange: name })[name] == (MetricsView {
                total_sent: (m.total_sent + 1) as u64,
                timeouts: (m.timeouts + 1) as u64,
                ..m
            })
            &&& noted(board, EventView::Connected { exchange: name })[name] == (MetricsView {
                connected: true,
                ..m
            })
            &&& noted(board, EventView::Disconnected { exchange: name })[name] == (MetricsView {
                connected: false,
                reconnects: (m.reconnects + 1) as u32,
                ..m
            })
        }),
{
    assert(board[name].samples.push(ns) =~= board[name].samples + seq![ns]);
}

/// The latency that is shown is the one that was reported, under the exchange's own name, and it is
/// the one that the same event puts into the window, unless the window's size is zero or the
/// exchange is not on the board.
pub proof fn lemma_latency_shown_is_latency_kept(
    board: Board,
    exchange: Seq<char>,
    ns: u64,
    on: bool,
)
    ensures
        told(EventView::Latency { exchange, ns }, on) matches NoticeView::Live {
            exchange: shown_exchange,
            ns: shown_ns,
        } && {
            &&& shown_exchange == exchange
            &&& shown_ns == ns
            &&& board.contains_key(exchange) && board[exchange].window > 0 ==> noted(
                board,
                EventView::Latency { exchange, ns },
            )[exchange].samples.last() == shown_ns
        },
{
}

/// What is shown of the other events: a timeout goes to the error output, in bold red; the start of
/// a session in green and its end in red to the regular output; each with the exchange's own name.
pub proof fn lemma_notices(name: Seq<char>, on: bool)
    ensures
        told(EventView::Timeout { exchange: name }, on) == (NoticeView::Alert {
            text: styled("  ⚠  TIMEOUT  "@ + name, "1;"@ + "31"@, on),
        }),
        told(EventView::Connected { exchange: name }, on) == (NoticeView::Line {
            text: styled("  ✓  "@ + name + " connected"@, "32"@, on),
        }),
        told(EventView::Disconnected { exchange: name }, on) == (NoticeView::Line {
            text: styled("  ✗  "@ + name + " disconnected"@, "31"@, on),
        }),
{
}

/// What is said of a notice is what it holds.
pub proof fn lemma_notice_view_is_faithful(notice: Notice)
    ensures
        match notice {
            Notice::Live { exchange, ns } => notice@ == (NoticeView::Live {
                exchange: exchange@,
                ns,
            }),
            Notice::Line { text } => notice@ == (NoticeView::Line { text: text@ }),
            Notice::Alert { text } => notice@ == (NoticeView::Alert { text: text@ }),
        },
{
}

/// There is room for an event exactly when no counter that it moves is full; for one about an
/// unknown exchange there always is.
pub proof fn lemma_room(board: Board, name: Seq<char>, ns: u64)
    ensures
        has_room_for(board, EventView::Latency { exchange: name, ns }) <==> (board.contains_key(
            name,
        ) ==> board[name].total_sent < u64::MAX),
        has_room_for(board, EventView::Timeout { exchange: name }) <==> (board.contains_key(name)
            ==> board[name].total_sent < u64::MAX && board[name].timeouts < u64::MAX),
        has_room_for(board, EventView::Connected { exchange: name }),
        has_room_for(board, EventView::Disconnected { exchange: name }) <==> (board.contains_key(
            name,
        ) ==> board[name].reconnects < u32::MAX),
{
}

/// At first nothing is known of any of the four exchanges, and there is no other on the board.
pub proof fn lemma_fresh_board(window: usize, name: Seq<char>)
    ensures
        fresh_board(window).contains_key(name) <==> name == "Binance"@ || name == "Coinbase"@
            || name == "Polymarket"@ || name == "Mexico"@,
        fresh_board(window).contains_key(name) ==> fresh_board(window)[name] == (MetricsView {
            samples: seq![],
            window,
            total_sent: 0,
            timeouts: 0,
            reconnects: 0,
            connected: false,
        }),
{
    assert(names()[0] == "Binance"@ && names()[1] == "Coinbase"@);
    assert(names()[2] == "Polymarket"@ && names()[3] == "Mexico"@);
}

/// The board always holds exactly the monitored exchanges.
pub proof fn lemma_board_holds_names(window: usize, events: Seq<EventView>, name: Seq<char>)
    ensures
        noted_all(fresh_board(window), events).contains_key(name) <==> names().contains(name),
    decreases events.len(),
{
    if events.len() > 0 {
        lemma_board_holds_names(window, events.drop_last(), name);
    }
}

/// After any series of events the metrics of an exchange are: its latest latencies, as many as the
/// window keeps; the number of its answered and timed-out pings; the number of its timeouts; the
/// number of its ended sessions; and whether its last session stands.
pub proof fn lemma_board_tallies(window: usize, events: Seq<EventView>, name: Seq<char>)
    requires
        names().contains(name),
        latencies_of(events, name).len() + timeouts_of(events, name) <= u64::MAX,
        ends_of(events, name) <= u32::MAX,
    ensures
        noted_all(fresh_board(window), events)[name] == (MetricsView {
            samples: latest(latencies_of(events, name), window),
            window,
            total_sent: (latencies_of(events, name).len() + timeouts_of(events, name)) as u64,
            timeouts: timeouts_of(events, name) as u64,
            reconnects: ends_of(events, name) as u32,
            connected: stands(events, name),
        }),
    decreases events.len(),
{
    if events.len() > 0 {
        let earlier = events.drop_last();
        lemma_board_tallies(window, earlier, name);
        lemma_board_holds_names(window, earlier, name);
        if let EventView::Latency { ns, .. } = events.last() {
            lemma_latest_push(latencies_of(earlier, name), ns, window);
        }
    }
}

/// The metrics on the board are always well-formed.
pub proof fn lemma_board_stays_wf(window: usize, events: Seq<EventView>, name: Seq<char>)
    requires
        names().contains(name),
        latencies_of(events, name).len() + timeouts_of(events, name) <= u64::MAX,
        ends_of(events, name) <= u32::MAX,
    ensures
        noted_all(fresh_board(window), events)[name].wf(),
{
    lemma_board_tallies(window, events, name);
}

/// The board counts each ping of a session once: after all that the session has reported, the pings
/// that are counted and those in flight are as many as were sent.
pub proof fn lemma_board_counts_each_ping(window: usize, start: SessionView, trace: Trace)
    requires
        fresh(start),
        expected(start, trace),
        names().contains(start.exchange),
        pings(start, trace).len() <= u64::MAX,
    ensures
        noted_all(fresh_board(window), reports(start, trace))[start.exchange].total_sent + after(
            start,
            trace,
        ).pending.len() == pings(start, trace).len(),
{
    let events = reports(start, trace);
    lemma_every_ping_accounted(start, trace);
    assert forall|i: int| 0 <= i < events.len() implies #[trigger] events[i].about()
        == start.exchange && !(events[i] is Disconnected) by {
        lemma_reports_name_exchange(start, trace, i);
        lemma_connection_reported_first(start, trace, i);
    }
    lemma_tallied_are_settled(events, start.exchange);
    lemma_board_tallies(window, events, start.exchange);
}

/// Of events about one exchange that report no end, exactly what was settled is tallied.
proof fn lemma_tallied_are_settled(events: Seq<EventView>, name: Seq<char>)
    requires
        forall|i: int|
            0 <= i < events.len() ==> #[trigger] events[i].about() == name && !(
            events[i] is Disconnected),
    ensures
        latencies_of(events, name).len() + timeouts_of(events, name) == settled(events),
        ends_of(events, name) == 0,
    decreases events.len(),
{
    if events.len() > 0 {
        let earlier = events.drop_last();
        assert forall|i: int| 0 <= i < earlier.len() implies #[trigger] earlier[i].about() == name
            && !(earlier[i] is Disconnected) by {
            assert(events[i].about() == name);
        }
        assert(events[events.len() - 1].about() == name);
        lemma_tallied_are_settled(earlier, name);
    }
}

} // verus!
