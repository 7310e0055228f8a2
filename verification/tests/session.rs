use ws_latency_monitor::aggregator::Aggregator;
use ws_latency_monitor::exchange::{exchange_list, Event, Exchange};
use ws_latency_monitor::session::{Frame, Input, Next, Session, SessionError, Step};

const MS: u64 = 1_000_000;

fn quiet() -> Exchange {
    Exchange { name: "Binance", url: "wss://stream.binance.com:9443/ws/btcusdt@aggTrade", subscribe_msg: None }
}

fn step(session: &mut Session, input: Input, now: u64) -> Step {
    assert!(session.expects(&input));
    session.step(input, now)
}

fn running(timeout_ms: u64) -> Session {
    let (mut session, _) = Session::open(&quiet(), timeout_ms);
    let out = step(&mut session, Input::Connected, 0);
    assert_eq!(out.next, Next::Wait);
    session
}

const TIMEOUT: Event = Event::Timeout { exchange: "Binance" };

fn latency(ns: u64) -> Event {
    Event::Latency { exchange: "Binance", ns }
}

fn ping_at(session: &mut Session, tick: u64, sent: u64) -> Vec<Event> {
    let out = step(session, Input::Tick, tick);
    assert_eq!(out.next, Next::Send { frame: Frame::Ping { data: vec![] } });
    let done = step(session, Input::Sent, sent);
    assert_eq!(done, Step { reports: vec![], next: Next::Wait });
    out.reports
}

#[test]
fn open_connects_to_the_parsed_address() {
    let urls: Vec<Next> = exchange_list().iter().map(|e| Session::open(e, 5000).1).collect();
    assert_eq!(
        urls,
        vec![
            Next::Connect { url: "wss://stream.binance.com:9443/ws/btcusdt@aggTrade".to_string() },
            Next::Connect { url: "wss://advanced-trade-ws.coinbase.com/".to_string() },
            Next::Connect { url: "wss://ws-subscriptions-clob.polymarket.com/ws/".to_string() },
            Next::Connect { url: "wss://wbs.mexc.com/ws".to_string() },
        ]
    );
}

#[test]
fn open_fails_on_a_bad_address() {
    let exchange = Exchange { name: "Nowhere", url: "not an address", subscribe_msg: None };
    let (session, next) = Session::open(&exchange, 5000);
    let error = SessionError::Url { error: "relative URL without a base".to_string() };
    assert_eq!(error.message("Nowhere"), "relative URL without a base");
    assert_eq!(next, Next::Finish { error });
    assert!(!session.expects(&Input::Connected));
}

#[test]
fn open_parsed_takes_either_outcome() {
    let (session, next) = Session::open_parsed(&quiet(), 1, Ok("wss://a/".to_string()));
    assert_eq!(next, Next::Connect { url: "wss://a/".to_string() });
    assert!(session.expects(&Input::Connected));
    let (session, next) = Session::open_parsed(&quiet(), 1, Err("empty host".to_string()));
    assert_eq!(next, Next::Finish { error: SessionError::Url { error: "empty host".to_string() } });
    assert!(!session.expects(&Input::Connected));
}

#[test]
fn connection_is_reported_and_subscription_sent() {
    let coinbase = exchange_list()[1];
    let (mut session, _) = Session::open(&coinbase, 5000);
    let out = step(&mut session, Input::Connected, 3);
    assert_eq!(out.reports, vec![Event::Connected { exchange: "Coinbase" }]);
    assert_eq!(
        out.next,
        Next::Send {
            frame: Frame::Text {
                payload: "{\"type\":\"subscribe\",\"product_ids\":[\"BTC-USD\"],\"channel\":\"heartbeats\"}"
            }
        }
    );
    assert!(!session.expects(&Input::Tick));
    assert_eq!(step(&mut session, Input::Sent, 4), Step { reports: vec![], next: Next::Wait });
    // The subscription is no ping: a pong now is not measured.
    assert_eq!(step(&mut session, Input::Pong, 5), Step { reports: vec![], next: Next::Wait });
}

#[test]
fn connection_without_subscription_waits() {
    let (mut session, _) = Session::open(&quiet(), 5000);
    let out = step(&mut session, Input::Connected, 0);
    assert_eq!(out, Step { reports: vec![Event::Connected { exchange: "Binance" }], next: Next::Wait });
}

#[test]
fn latency_is_measured_from_the_oldest_ping() {
    let mut session = running(5000);
    assert_eq!(ping_at(&mut session, 10 * MS, 11 * MS), vec![]);
    let out = step(&mut session, Input::Pong, 31 * MS + 7);
    assert_eq!(out, Step { reports: vec![latency(20 * MS + 7)], next: Next::Wait });
    // Pongs answer pings in the order in which these were sent.
    assert_eq!(ping_at(&mut session, 1000 * MS, 1000 * MS), vec![]);
    assert_eq!(ping_at(&mut session, 2000 * MS, 2000 * MS), vec![]);
    assert_eq!(step(&mut session, Input::Pong, 2500 * MS).reports, vec![latency(1500 * MS)]);
    assert_eq!(step(&mut session, Input::Pong, 2600 * MS).reports, vec![latency(600 * MS)]);
    assert_eq!(step(&mut session, Input::Pong, 2700 * MS).reports, vec![]);
}

#[test]
fn a_ping_is_answered_once() {
    let mut session = running(5000);
    ping_at(&mut session, 0, 0);
    assert_eq!(step(&mut session, Input::Pong, 5).reports, vec![latency(5)]);
    assert_eq!(step(&mut session, Input::Pong, 6).reports, vec![]);
}

#[test]
fn a_clock_that_steps_back_gives_no_latency() {
    let mut session = running(5000);
    ping_at(&mut session, 100, 100);
    assert_eq!(step(&mut session, Input::Pong, 40).reports, vec![latency(0)]);
}

#[test]
fn timeout_is_reported_only_above_the_limit() {
    let mut session = running(5);
    ping_at(&mut session, 0, 1);
    assert_eq!(ping_at(&mut session, 5 * MS + 1, 6 * MS), vec![]);
    // The first ping is late, the second is exactly at the limit.
    assert_eq!(ping_at(&mut session, 11 * MS, 11 * MS), vec![TIMEOUT]);
    assert_eq!(step(&mut session, Input::Pong, 11 * MS).reports, vec![latency(5 * MS)]);
    assert_eq!(step(&mut session, Input::Pong, 13 * MS).reports, vec![latency(2 * MS)]);
    // Nothing is in flight: the next tick reports nothing.
    assert_eq!(ping_at(&mut session, 900 * MS, 900 * MS), vec![]);
}

#[test]
fn a_tick_reports_every_late_ping() {
    let mut session = running(5000);
    assert_eq!(ping_at(&mut session, 0, 0), vec![]);
    assert_eq!(ping_at(&mut session, 1000 * MS, 1000 * MS), vec![]);
    assert_eq!(ping_at(&mut session, 6000 * MS, 6000 * MS), vec![TIMEOUT]);
    assert_eq!(ping_at(&mut session, 20_000 * MS, 20_000 * MS), vec![TIMEOUT, TIMEOUT]);
    assert_eq!(step(&mut session, Input::Pong, 20_001 * MS).reports, vec![latency(MS)]);
}

#[test]
fn a_silent_server_is_noticed() {
    // A ping each second, a timeout of five seconds and no pong for a minute.
    let mut session = running(5000);
    let mut lost = 0;
    for second in 0..=60u64 {
        let events = ping_at(&mut session, second * 1000 * MS, second * 1000 * MS);
        assert!(events.iter().all(|event| *event == TIMEOUT));
        lost += events.len();
    }
    // All but the pings of the last five seconds and the one just sent.
    assert_eq!(lost, 55);
}

#[test]
fn a_late_pong_is_a_timeout() {
    let mut session = running(5000);
    assert_eq!(ping_at(&mut session, 0, 0), vec![]);
    assert_eq!(step(&mut session, Input::Pong, 7000 * MS).reports, vec![TIMEOUT]);
    // The ping is settled: the next tick does not report it again.
    assert_eq!(ping_at(&mut session, 10_000 * MS, 10_000 * MS), vec![]);
    assert_eq!(step(&mut session, Input::Pong, 15_000 * MS).reports, vec![latency(5000 * MS)]);
    ping_at(&mut session, 20_000 * MS, 20_000 * MS);
    assert_eq!(step(&mut session, Input::Pong, 25_000 * MS + 1).reports, vec![TIMEOUT]);
}

#[test]
fn the_largest_timeout_is_never_reached() {
    let mut session = running(u64::MAX);
    ping_at(&mut session, 0, 0);
    assert_eq!(ping_at(&mut session, u64::MAX, u64::MAX), vec![]);
    assert_eq!(step(&mut session, Input::Pong, u64::MAX).reports, vec![latency(u64::MAX)]);
}

#[test]
fn server_pings_are_answered_with_their_payload() {
    let mut session = running(5000);
    ping_at(&mut session, 0, 1);
    let out = step(&mut session, Input::Ping { data: vec![1, 2, 3] }, 2);
    assert_eq!(out, Step { reports: vec![], next: Next::Send { frame: Frame::Pong { data: vec![1, 2, 3] } } });
    step(&mut session, Input::Sent, 50);
    // The own ping is still measured from when it was sent.
    assert_eq!(step(&mut session, Input::Pong, 60).reports, vec![latency(59)]);
}

#[test]
fn data_is_ignored() {
    let mut session = running(5000);
    ping_at(&mut session, 0, 1);
    assert_eq!(step(&mut session, Input::Data, 2), Step { reports: vec![], next: Next::Wait });
    assert_eq!(step(&mut session, Input::Pong, 3).reports, vec![latency(2)]);
}

#[test]
fn an_answer_settles_the_oldest_ping() {
    // Only one of two pings is answered: the answer counts for the first.
    let mut session = running(5000);
    ping_at(&mut session, 0, 0);
    ping_at(&mut session, 1000 * MS, 1000 * MS);
    assert_eq!(step(&mut session, Input::Pong, 1050 * MS).reports, vec![latency(1050 * MS)]);
    assert_eq!(ping_at(&mut session, 6000 * MS + 1, 6001 * MS), vec![TIMEOUT]);
}

#[test]
fn each_failure_ends_the_session() {
    let failures: Vec<(Input, SessionError, &str)> = vec![
        (Input::Close, SessionError::Closed, "[Binance] server sent Close frame"),
        (Input::StreamEnded, SessionError::Ended, "[Binance] stream ended unexpectedly"),
        (
            Input::StreamFailed { error: "reset".to_string() },
            SessionError::Stream { error: "reset".to_string() },
            "[Binance] stream error — reset",
        ),
    ];
    for (input, error, message) in failures {
        let mut session = running(5000);
        assert_eq!(error.message("Binance"), message);
        let out = step(&mut session, input, 9);
        assert_eq!(out, Step { reports: vec![], next: Next::Finish { error } });
        assert!(!session.expects(&Input::Tick));
        assert!(!session.expects(&Input::Pong));
    }
}

#[test]
fn a_failed_connection_ends_the_session() {
    let (mut session, _) = Session::open(&quiet(), 5000);
    let out = step(&mut session, Input::ConnectFailed { error: "refused".to_string() }, 1);
    let error = SessionError::Connect { error: "refused".to_string() };
    assert_eq!(error.message("Binance"), "[Binance] connect failed — refused");
    assert_eq!(out, Step { reports: vec![], next: Next::Finish { error } });
}

#[test]
fn a_failed_send_ends_the_session() {
    let mut session = running(5000);
    step(&mut session, Input::Tick, 1);
    let out = step(&mut session, Input::SendFailed { error: "broken pipe".to_string() }, 2);
    let error = SessionError::Send { error: "broken pipe".to_string() };
    assert_eq!(error.message("Binance"), "broken pipe");
    assert_eq!(out, Step { reports: vec![], next: Next::Finish { error } });
    assert!(!session.expects(&Input::Sent));
}

#[test]
fn each_ping_is_counted_once() {
    let mut session = running(5);
    let mut all = Aggregator::new(10);
    let mut pings = 0;
    for round in 0..6u64 {
        let start = round * 20 * MS;
        let mut events = ping_at(&mut session, start, start + 1);
        pings += 1;
        if round % 2 == 0 {
            events.extend(step(&mut session, Input::Pong, start + MS).reports);
            events.extend(step(&mut session, Input::Pong, start + 2 * MS).reports);
        }
        for event in events {
            assert!(all.has_room(&event));
            all.handle(event, false);
        }
    }
    let binance = all.get("Binance").unwrap();
    assert_eq!((binance.samples().len(), binance.timeouts()), (3, 2));
    // The last ping is still in flight.
    assert_eq!(binance.total_sent() + 1, pings);
}
