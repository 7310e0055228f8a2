use ws_latency_monitor::exchange::Event;
use ws_latency_monitor::worker::{Retry, Worker};

#[test]
fn waits_grow_up_to_ten_seconds() {
    let mut worker = Worker::new("Mexico", 0);
    for attempt in 1..=30u32 {
        let (event, retry) = worker.session_over();
        assert_eq!(event, Event::Disconnected { exchange: "Mexico" });
        let wait_ms = if attempt < 20 { 500 * u64::from(attempt) } else { 10_000 };
        assert_eq!(retry, Retry::After { wait_ms, attempt });
        assert_eq!(worker.attempts(), attempt);
    }
}

#[test]
fn a_limit_stops_the_worker() {
    let mut worker = Worker::new("Mexico", 3);
    assert_eq!(worker.session_over().1, Retry::After { wait_ms: 500, attempt: 1 });
    assert_eq!(worker.session_over().1, Retry::After { wait_ms: 1000, attempt: 2 });
    assert_eq!(worker.session_over().1, Retry::After { wait_ms: 1500, attempt: 3 });
    assert_eq!(worker.session_over().1, Retry::Stop);
}

#[test]
fn a_limit_of_one_allows_one_reconnect() {
    let mut worker = Worker::new("Binance", 1);
    let down = Event::Disconnected { exchange: "Binance" };
    let (first, retry) = worker.session_over();
    assert_eq!((&first, retry), (&down, Retry::After { wait_ms: 500, attempt: 1 }));
    assert_eq!(worker.session_over(), (down, Retry::Stop));
}

#[test]
fn the_largest_limit_is_not_reached_early() {
    let mut worker = Worker::new("Binance", u32::MAX);
    assert_eq!(worker.session_over().1, Retry::After { wait_ms: 500, attempt: 1 });
}
