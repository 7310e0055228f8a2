//! The monitored exchanges and the events that their workers report.

use vstd::prelude::*;

verus! {

/// A WebSocket endpoint to be measured.
#[derive(Clone, Copy, Debug)]
pub struct Exchange {
    /// The name under which the exchange is reported.
    pub name: &'static str,
    /// The address to connect to.
    pub url: &'static str,
    /// A JSON payload to be sent right after the connection stands, if the exchange wants one.
    pub subscribe_msg: Option<&'static str>,
}

/// What an [`Exchange`] says, as texts.
pub struct ExchangeView {
    pub name: Seq<char>,
    pub url: Seq<char>,
    pub subscribe_msg: Option<Seq<char>>,
}

/// The text of an optional string.
pub open spec fn text_of(s: Option<&'static str>) -> Option<Seq<char>> {
    match s {
        Some(t) => Some(t@),
        None => None,
    }
}

impl View for Exchange {
    type V = ExchangeView;

    open spec fn view(&self) -> ExchangeView {
        ExchangeView { name: self.name@, url: self.url@, subscribe_msg: text_of(self.subscribe_msg) }
    }
}

/// The names of the exchanges, in the order of the report.
pub open spec fn names() -> Seq<Seq<char>> {
    seq!["Binance"@, "Coinbase"@, "Polymarket"@, "Mexico"@]
}

/// The exchanges that are monitored.
pub open spec fn monitored() -> Seq<ExchangeView> {
    seq![
        ExchangeView {
            name: "Binance"@,
            url: "wss://stream.binance.com:9443/ws/btcusdt@aggTrade"@,
            subscribe_msg: None,
        },
        ExchangeView {
            name: "Coinbase"@,
            url: "wss://advanced-trade-ws.coinbase.com"@,
            subscribe_msg: Some(
                r#"{"type":"subscribe","product_ids":["BTC-USD"],"channel":"heartbeats"}"#@,
            ),
        },
        ExchangeView {
            name: "Polymarket"@,
            url: "wss://ws-subscriptions-clob.polymarket.com/ws/"@,
            subscribe_msg: Some(r#"{"assets_ids":[],"type":"market"}"#@),
        },
        ExchangeView {
            name: "Mexico"@,
            url: "wss://wbs.mexc.com/ws"@,
            subscribe_msg: Some(
                r#"{"method":"SUBSCRIPTION","params":["spot@public.deals.v3.api@BTCUSDT"]}"#@,
            ),
        },
    ]
}

/// The exchanges to be monitored, each with its address and subscription.
pub fn exchange_list() -> (r: Vec<Exchange>)
    ensures
        r@.len() == monitored().len(),
        forall|i: int| 0 <= i < r@.len() ==> (#[trigger] r@[i])@ == monitored()[i],
{
    vec![
        Exchange {
            name: "Binance",
            url: "wss://stream.binance.com:9443/ws/btcusdt@aggTrade",
            // The stream is chosen by the address: no message is needed.
            subscribe_msg: None,
        },
        Exchange {
            name: "Coinbase",
            url: "wss://advanced-trade-ws.coinbase.com",
            subscribe_msg: Some(
                r#"{"type":"subscribe","product_ids":["BTC-USD"],"channel":"heartbeats"}"#,
            ),
        },
        Exchange {
            name: "Polymarket",
            url: "wss://ws-subscriptions-clob.polymarket.com/ws/",
            subscribe_msg: Some(r#"{"assets_ids":[],"type":"market"}"#),
        },
        Exchange {
            name: "Mexico",
            url: "wss://wbs.mexc.com/ws",
            subscribe_msg: Some(
                r#"{"method":"SUBSCRIPTION","params":["spot@public.deals.v3.api@BTCUSDT"]}"#,
            ),
        },
    ]
}

/// The names of the exchanges, in the order of the report.
pub fn exchange_names() -> (r: Vec<&'static str>)
    ensures
        r@.len() == names().len(),
        forall|i: int| 0 <= i < r@.len() ==> (#[trigger] r@[i])@ == names()[i],
{
    vec!["Binance", "Coinbase", "Polymarket", "Mexico"]
}

/// The report has one place for each monitored exchange, under its name.
pub proof fn lemma_monitored_are_named()
    ensures
        monitored().len() == names().len(),
        forall|i: int| 0 <= i < monitored().len() ==> (#[trigger] monitored()[i]).name == names()[i],
{
}

/// No two exchanges share a name.
pub proof fn lemma_names_distinct(i: int, j: int)
    requires
        0 <= i < names().len(),
        0 <= j < names().len(),
        names()[i] == names()[j],
    ensures
        i == j,
{
    reveal_strlit("Binance");
    reveal_strlit("Coinbase");
    reveal_strlit("Polymarket");
    reveal_strlit("Mexico");
    assert("Coinbase"@.len() == 8);
    assert("Polymarket"@.len() == 10);
    assert("Mexico"@.len() == 6);
}

/// What a worker tells the aggregator.
#[derive(Clone, Copy, Debug, PartialEq, Eq)]
pub enum Event {
    /// A ping was answered after `ns` nanoseconds.
    Latency { exchange: &'static str, ns: u64 },
    /// A ping went unanswered for longer than the timeout.
    Timeout { exchange: &'static str },
    /// A session stands.
    Connected { exchange: &'static str },
    /// A session is over.
    Disconnected { exchange: &'static str },
}

/// What an [`Event`] says, with the exchange's name as text.
pub enum EventView {
    Latency { exchange: Seq<char>, ns: u64 },
    Timeout { exchange: Seq<char> },
    Connected { exchange: Seq<char> },
    Disconnected { exchange: Seq<char> },
}

impl View for Event {
    type V = EventView;

    open spec fn view(&self) -> EventView {
        match *self {
            Event::Latency { exchange, ns } => EventView::Latency { exchange: exchange@, ns },
            Event::Timeout { exchange } => EventView::Timeout { exchange: exchange@ },
            Event::Connected { exchange } => EventView::Connected { exchange: exchange@ },
            Event::Disconnected { exchange } => EventView::Disconnected { exchange: exchange@ },
        }
    }
}

impl EventView {
    /// The name of the exchange that the event is about.
    pub open spec fn about(self) -> Seq<char> {
        match self {
            EventView::Latency { exchange, .. } => exchange,
            EventView::Timeout { exchange } => exchange,
            EventView::Connected { exchange } => exchange,
            EventView::Disconnected { exchange } => exchange,
        }
    }
}

impl Event {
    /// The name of the exchange that the event is about.
    pub fn exchange(&self) -> (r: &'static str)
        ensures
            r@ == self@.about(),
    {
        match *self {
            Event::Latency { exchange, .. } => exchange,
            Event::Timeout { exchange } => exchange,
            Event::Connected { exchange } => exchange,
            Event::Disconnected { exchange } => exchange,
        }
    }
}

/// The four exchanges that are monitored: their names, addresses and subscriptions.
pub proof fn lemma_who_is_monitored()
    ensures
        names().len() == 4,
        names()[0] == "Binance"@,
        names()[1] == "Coinbase"@,
        names()[2] == "Polymarket"@,
        names()[3] == "Mexico"@,
        monitored().len() == 4,
        forall|i: int| 0 <= i < 4 ==> (#[trigger] monitored()[i]).name == names()[i],
        monitored()[0].url == "wss://stream.binance.com:9443/ws/btcusdt@aggTrade"@,
        monitored()[0].subscribe_msg is None,
        monitored()[1].url == "wss://advanced-trade-ws.coinbase.com"@,
        monitored()[1].subscribe_msg == Some(
            r#"{"type":"subscribe","product_ids":["BTC-USD"],"channel":"heartbeats"}"#@,
        ),
        monitored()[2].url == "wss://ws-subscriptions-clob.polymarket.com/ws/"@,
        monitored()[2].subscribe_msg == Some(r#"{"assets_ids":[],"type":"market"}"#@),
        monitored()[3].url == "wss://wbs.mexc.com/ws"@,
        monitored()[3].subscribe_msg == Some(
            r#"{"method":"SUBSCRIPTION","params":["spot@public.deals.v3.api@BTCUSDT"]}"#@,
        ),
{
}

/// What is said of an exchange is what it holds.
pub proof fn lemma_exchange_view_is_faithful(exchange: Exchange)
    ensures
        exchange@.name == exchange.name@,
        exchange@.url == exchange.url@,
        exchange@.subscribe_msg is Some <==> exchange.subscribe_msg is Some,
        exchange.subscribe_msg matches Some(text) ==> exchange@.subscribe_msg == Some(text@),
{
}

/// Each event is about the exchange that it names.
pub proof fn lemma_event_names_its_exchange(name: Seq<char>, ns: u64)
    ensures
        (EventView::Latency { exchange: name, ns }).about() == name,
        (EventView::Timeout { exchange: name }).about() == name,
        (EventView::Connected { exchange: name }).about() == name,
        (EventView::Disconnected { exchange: name }).about() == name,
{
}

} // verus!
