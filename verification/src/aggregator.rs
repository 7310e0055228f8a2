//! Collects what the workers report, exchange by exchange.

use crate::exchange::{exchange_names, lemma_names_distinct, names, Event, EventView};
use crate::metrics::{Metrics, MetricsView};
use crate::style::{paint, paint_bold, styled, Hue};
use crate::text::same_text;
use vstd::prelude::*;
use vstd::string::StringExecFns;

verus! {

/// The metrics of an exchange after an event about it.
pub open spec fn updated(m: MetricsView, event: EventView) -> MetricsView {
    match event {
        EventView::Latency { ns, .. } => m.pushed(ns),
        EventView::Timeout { .. } => m.timed_out(),
        EventView::Connected { .. } => m.connected(),
        EventView::Disconnected { .. } => m.disconnected(),
    }
}

/// Whether the counters that an event moves can still be moved.
pub open spec fn countable(m: MetricsView, event: EventView) -> bool {
    match event {
        EventView::Latency { .. } => m.total_sent < u64::MAX,
        EventView::Timeout { .. } => m.total_sent < u64::MAX && m.timeouts < u64::MAX,
        EventView::Connected { .. } => true,
        EventView::Disconnected { .. } => m.reconnects < u32::MAX,
    }
}

/// The metrics of each exchange, by its name.
pub type Board = Map<Seq<char>, MetricsView>;

/// Nothing is known of any exchange yet.
pub open spec fn fresh_board(window: usize) -> Board {
    Map::new(|name: Seq<char>| names().contains(name), |name: Seq<char>| MetricsView::fresh(window))
}

/// The board after an event. An event about an exchange that is not on the board changes nothing.
pub open spec fn noted(board: Board, event: EventView) -> Board {
    if board.contains_key(event.about()) {
        board.insert(event.about(), updated(board[event.about()], event))
    } else {
        board
    }
}

/// Whether the counters that an event moves can still be moved.
pub open spec fn has_room_for(board: Board, event: EventView) -> bool {
    board.contains_key(event.about()) ==> countable(board[event.about()], event)
}

/// What is shown of an event.
#[derive(Debug, PartialEq, Eq)]
pub enum Notice {
    /// A line with the latency.
    Live { exchange: &'static str, ns: u64 },
    /// A line of the regular output.
    Line { text: String },
    /// A line of the error output.
    Alert { text: String },
}

/// What a [`Notice`] says.
pub enum NoticeView {
    Live { exchange: Seq<char>, ns: u64 },
    Line { text: Seq<char> },
    Alert { text: Seq<char> },
}

impl View for Notice {
    type V = NoticeView;

    open spec fn view(&self) -> NoticeView {
        match self {
            Notice::Live { exchange, ns } => NoticeView::Live { exchange: exchange@, ns: *ns },
            Notice::Line { text } => NoticeView::Line { text: text@ },
            Notice::Alert { text } => NoticeView::Alert { text: text@ },
        }
    }
}

/// What is to be shown of an event, where colours are on or off.
pub open spec fn told(event: EventView, on: bool) -> NoticeView {
    match event {
        EventView::Latency { exchange, ns } => NoticeView::Live { exchange, ns },
        EventView::Timeout { exchange } => NoticeView::Alert {
            text: styled("  ⚠  TIMEOUT  "@ + exchange, Hue::Red.bold_code(), on),
        },
        EventView::Connected { exchange } => NoticeView::Line {
            text: styled("  ✓  "@ + exchange + " connected"@, Hue::Green.code(), on),
        },
        EventView::Disconnected { exchange } => NoticeView::Line {
            text: styled("  ✗  "@ + exchange + " disconnected"@, Hue::Red.code(), on),
        },
    }
}

/// What is to be shown of an event.
pub fn notice(event: Event, on: bool) -> (r: Notice)
    ensures
        r@ == told(event@, on),
{
    let mut text = String::new();
    match event {
        Event::Latency { exchange, ns } => Notice::Live { exchange, ns },
        Event::Timeout { exchange } => {
            text.append("  ⚠  TIMEOUT  ");
            text.append(exchange);
            Notice::Alert { text: paint_bold(text.as_str(), Hue::Red, on) }
        },
        Event::Connected { exchange } => {
            text.append("  ✓  ");
            text.append(exchange);
            text.append(" connected");
            Notice::Line { text: paint(text.as_str(), Hue::Green, on) }
        },
        Event::Disconnected { exchange } => {
            text.append("  ✗  ");
            text.append(exchange);
            text.append(" disconnected");
            Notice::Line { text: paint(text.as_str(), Hue::Red, on) }
        },
    }
}

/// The place of an exchange in the order of the report.
fn place_of(name: &str) -> (r: Option<usize>)
    ensures
        r is Some <==> names().contains(name@),
        r matches Some(i) ==> i < names().len() && names()[i as int] == name@,
{
    let known: Vec<&'static str> = exchange_names();
    let mut i: usize = 0;
    while i < known.len()
        invariant
            i <= known@.len(),
            known@.len() == names().len(),
            forall|j: int| 0 <= j < known@.len() ==> (#[trigger] known@[j])@ == names()[j],
            forall|j: int| 0 <= j < i ==> names()[j] != name@,
        decreases known@.len() - i,
    {
        if same_text(known[i], name) {
            return Some(i);
        }
        i = i + 1;
    }
    None
}

/// The metrics of all exchanges.
#[derive(Debug)]
pub struct Aggregator {
    /// In the order of the report.
    metrics: Vec<Metrics>,
}

impl View for Aggregator {
    type V = Board;

    closed spec fn view(&self) -> Board {
        Map::new(
            |name: Seq<char>| names().contains(name),
            |name: Seq<char>| self.metrics@[names().index_of(name)]@,
        )
    }
}

impl Aggregator {
    /// There are metrics for each exchange.
    pub closed spec fn wf(&self) -> bool {
        self.metrics@.len() == names().len()
    }

    /// Metrics that keep the latest `window` latencies of each exchange. The window has to fit in
    /// memory: its 64-bit samples may take up at most `isize::MAX` bytes.
    pub fn new(window: usize) -> (r: Aggregator)
        requires
            window * 8 <= isize::MAX,
        ensures
            r.wf(),
            r@ == fresh_board(window),
    {
        let mut metrics: Vec<Metrics> = Vec::new();
        let mut i: usize = 0;
        let count: usize = exchange_names().len();
        while i < count
            invariant
                i <= count,
                window * 8 <= isize::MAX,
                metrics@.len() == i,
                forall|j: int| 0 <= j < i ==> (#[trigger] metrics@[j])@ == MetricsView::fresh(window),
            decreases count - i,
        {
            metrics.push(Metrics::new(window));
            i = i + 1;
        }
        Aggregator { metrics }
    }

    /// The metrics at a place are those of the exchange at that place.
    proof fn lemma_place(&self, i: int)
        requires
            self.wf(),
            0 <= i < names().len(),
        ensures
            self@.contains_key(names()[i]),
            self@[names()[i]] == self.metrics@[i]@,
    {
        lemma_names_distinct(names().index_of(names()[i]), i);
    }

    /// Whether the counters that an event moves can still be moved.
    pub fn has_room(&self, event: &Event) -> (r: bool)
        requires
            self.wf(),
        ensures
            r == has_room_for(self@, event@),
    {
        match place_of(event.exchange()) {
            None => true,
            Some(i) => {
                proof {
                    self.lemma_place(i as int);
                }
                let m = &self.metrics[i];
                match *event {
                    Event::Latency { .. } => m.total_sent() < u64::MAX,
                    Event::Timeout { .. } => m.total_sent() < u64::MAX && m.timeouts() < u64::MAX,
                    Event::Connected { .. } => true,
                    Event::Disconnected { .. } => m.reconnects() < u32::MAX,
                }
            },
        }
    }

    /// Takes note of an event, and says what is to be shown of it.
    pub fn handle(&mut self, event: Event, on: bool) -> (r: Notice)
        requires
            old(self).wf(),
            has_room_for(old(self)@, event@),
        ensures
            final(self).wf(),
            final(self)@ == noted(old(self)@, event@),
            r@ == told(event@, on),
    {
        let exchange: &'static str = event.exchange();
        if let Some(i) = place_of(exchange) {
            proof {
                self.lemma_place(i as int);
            }
            match event {
                Event::Latency { ns, .. } => self.metrics[i].push(ns),
                Event::Timeout { .. } => self.metrics[i].push_timeout(),
                Event::Connected { .. } => self.metrics[i].set_connected(),
                Event::Disconnected { .. } => self.metrics[i].set_disconnected(),
            }
            proof {
                assert forall|name: Seq<char>| names().contains(name) implies #[trigger] self@[name]
                    == noted(old(self)@, event@)[name] by {
                    let k = names().index_of(name);
                    if name == exchange@ {
                        lemma_names_distinct(k, i as int);
                    }
                    self.lemma_place(k);
                    old(self).lemma_place(k);
                }
            }
        }
        notice(event, on)
    }

    /// The metrics of an exchange.
    pub fn get(&self, exchange: &str) -> (r: Option<&Metrics>)
        requires
            self.wf(),
        ensures
            r is Some <==> names().contains(exchange@),
            r is Some <==> self@.contains_key(exchange@),
            r matches Some(m) ==> m@ == self@[exchange@],
    {
        match place_of(exchange) {
            None => None,
            Some(i) => {
                proof {
                    self.lemma_place(i as int);
                }
                Some(&self.metrics[i])
            },
        }
    }
}

} // verus!
