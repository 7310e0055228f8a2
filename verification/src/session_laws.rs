//! What holds of a whole session, whatever its driver hands to it.

use crate::exchange::{EventView, ExchangeView};
use crate::session::{
    elapsed, in_time, opened, overdue, timed_out, InputView, NextView, Phase, SessionView,
    NANOS_PER_MS,
};
use vstd::prelude::*;

verus! {

/// Inputs with the times at which they came, the oldest first.
pub type Trace = Seq<(InputView, u64)>;

/// The session after a trace.
pub open spec fn after(start: SessionView, trace: Trace) -> SessionView
    decreases trace.len(),
{
    if trace.len() == 0 {
        start
    } else {
        after(start, trace.drop_last()).step(trace.last().0, trace.last().1).0
    }
}

/// Whether each input of a trace was one that the session waited for.
pub open spec fn expected(start: SessionView, trace: Trace) -> bool
    decreases trace.len(),
{
    trace.len() == 0 || {
        &&& expected(start, trace.drop_last())
        &&& after(start, trace.drop_last()).expects(trace.last().0)
    }
}

/// The events that the session reported, the oldest first.
pub open spec fn reports(start: SessionView, trace: Trace) -> Seq<EventView>
    decreases trace.len(),
{
    if trace.len() == 0 {
        seq![]
    } else {
        reports(start, trace.drop_last()) + after(start, trace.drop_last()).step(
            trace.last().0,
            trace.last().1,
        ).1.reports
    }
}

/// The times at which pings were sent, the oldest first.
pub open spec fn pings(start: SessionView, trace: Trace) -> Seq<u64>
    decreases trace.len(),
{
    if trace.len() == 0 {
        seq![]
    } else {
        let before = pings(start, trace.drop_last());
        if after(start, trace.drop_last()).phase == Phase::Pinging && trace.last().0 is Sent {
            before.push(trace.last().1)
        } else {
            before
        }
    }
}

/// How many of the events tell the fate of a ping: that it was answered, or that it timed out.
pub open spec fn settled(events: Seq<EventView>) -> nat
    decreases events.len(),
{
    if events.len() == 0 {
        0
    } else {
        settled(events.drop_last()) + if events.last() is Latency || events.last() is Timeout {
            1nat
        } else {
            0nat
        }
    }
}

/// Whether the clock of the inputs never ran backwards.
pub open spec fn in_order(trace: Trace) -> bool {
    forall|i: int, j: int| 0 <= i <= j < trace.len() ==> trace[i].1 <= trace[j].1
}

/// Whether the times never go down.
pub open spec fn ascending(times: Seq<u64>) -> bool {
    forall|i: int, j: int| 0 <= i <= j < times.len() ==> times[i] <= times[j]
}

/// A session that waits for its connection, with no ping in flight.
pub open spec fn fresh(s: SessionView) -> bool {
    s.phase == Phase::Connecting && s.pending.len() == 0
}

/// A session whose address could be parsed starts by waiting for its connection.
pub proof fn lemma_opened_fresh(exchange: ExchangeView, timeout_ms: u64, url: Seq<char>)
    ensures
        fresh(opened(exchange, timeout_ms, Ok(url)).0),
        opened(exchange, timeout_ms, Ok(url)).0.exchange == exchange.name,
        opened(exchange, timeout_ms, Ok(url)).1 == (NextView::Connect { url }),
{
}

/// A session is over exactly when its driver was told to finish, and then it waits for nothing.
pub proof fn lemma_finish_is_the_end(s: SessionView, input: InputView, now: u64, more: InputView)
    requires
        s.expects(input),
    ensures
        s.step(input, now).1.next is Finish <==> s.step(input, now).0.phase == Phase::Over,
        s.step(input, now).1.next is Finish ==> !s.step(input, now).0.expects(more),
{
}

/// A session keeps its exchange, its subscription and its timeout.
pub proof fn lemma_session_identity(start: SessionView, trace: Trace)
    ensures
        after(start, trace).exchange == start.exchange,
        after(start, trace).subscribe_msg == start.subscribe_msg,
        after(start, trace).timeout_ms == start.timeout_ms,
    decreases trace.len(),
{
    if trace.len() > 0 {
        lemma_session_identity(start, trace.drop_last());
    }
}

/// Every ping is settled once or is still in flight: the answered and the timed-out pings together
/// with those in flight are as many as were sent.
pub proof fn lemma_every_ping_accounted(start: SessionView, trace: Trace)
    requires
        fresh(start),
    ensures
        settled(reports(start, trace)) + after(start, trace).pending.len() == pings(
            start,
            trace,
        ).len(),
    decreases trace.len(),
{
    if trace.len() > 0 {
        let prefix = trace.drop_last();
        lemma_every_ping_accounted(start, prefix);
        lemma_step_accounts(after(start, prefix), trace.last().0, trace.last().1);
        lemma_settled_adds(
            reports(start, prefix),
            after(start, prefix).step(trace.last().0, trace.last().1).1.reports,
        );
    }
}

/// After a tick no ping in flight has been unanswered for longer than the timeout.
pub proof fn lemma_tick_leaves_no_late_ping(start: SessionView, trace: Trace, i: int)
    requires
        trace.len() > 0,
        trace.last().0 is Tick,
        0 <= i < after(start, trace).pending.len(),
    ensures
        !timed_out(after(start, trace).pending[i], trace.last().1, start.timeout_ms),
{
    lemma_session_identity(start, trace.drop_last());
    lemma_in_time(after(start, trace.drop_last()).pending, trace.last().1, start.timeout_ms);
}

/// A tick reports a timeout for each ping that it takes out of flight, and nothing else.
pub proof fn lemma_tick_reports_what_it_drops(s: SessionView, now: u64, i: int)
    ensures
        s.step(InputView::Tick, now).1.reports.len() + s.step(InputView::Tick, now).0.pending.len()
            == s.pending.len(),
        0 <= i < s.step(InputView::Tick, now).1.reports.len() ==> s.step(
            InputView::Tick,
            now,
        ).1.reports[i] == (EventView::Timeout { exchange: s.exchange }),
{
    lemma_in_time(s.pending, now, s.timeout_ms);
}

/// Pings are settled in the order in which they were sent: those in flight are the ones that were
/// sent last.
pub proof fn lemma_pending_are_latest_pings(start: SessionView, trace: Trace)
    requires
        fresh(start),
        in_order(trace),
    ensures
        settled(reports(start, trace)) <= pings(start, trace).len(),
        after(start, trace).pending == pings(start, trace).skip(
            settled(reports(start, trace)) as int,
        ),
    decreases trace.len(),
{
    lemma_every_ping_accounted(start, trace);
    if trace.len() > 0 {
        let prefix = trace.drop_last();
        let (input, now) = trace.last();
        let s = after(start, prefix);
        lemma_pending_are_latest_pings(start, prefix);
        lemma_pings_in_order(start, prefix);
        lemma_session_identity(start, prefix);
        lemma_settled_adds(reports(start, prefix), s.step(input, now).1.reports);
        lemma_step_accounts(s, input, now);
        if input is Tick {
            lemma_late_pings_come_first(s.pending, now, s.timeout_ms);
        }
    }
}

/// A ping that stays unanswered for longer than the timeout is settled at the next tick at the
/// latest.
pub proof fn lemma_late_ping_settled_by_tick(start: SessionView, trace: Trace, k: int)
    requires
        fresh(start),
        in_order(trace),
        trace.len() > 0,
        trace.last().0 is Tick,
        0 <= k < pings(start, trace).len(),
        timed_out(pings(start, trace)[k], trace.last().1, start.timeout_ms),
    ensures
        k < settled(reports(start, trace)),
{
    lemma_pending_are_latest_pings(start, trace);
    let done = settled(reports(start, trace)) as int;
    if k >= done {
        lemma_tick_leaves_no_late_ping(start, trace, k - done);
    }
}

/// A reported latency is the time from the oldest ping in flight to the pong that answered it, and
/// it is within the timeout.
pub proof fn lemma_latency_from_oldest_ping(
    start: SessionView,
    trace: Trace,
    input: InputView,
    now: u64,
    i: int,
)
    requires
        fresh(start),
        in_order(trace),
        0 <= i < after(start, trace).step(input, now).1.reports.len(),
    ensures
        after(start, trace).step(input, now).1.reports[i] matches EventView::Latency {
            exchange,
            ns,
        } ==> {
            &&& input is Pong
            &&& settled(reports(start, trace)) < pings(start, trace).len()
            &&& ns == elapsed(pings(start, trace)[settled(reports(start, trace)) as int], now)
            &&& ns <= start.timeout_ms * NANOS_PER_MS
        },
{
    lemma_pending_are_latest_pings(start, trace);
    lemma_session_identity(start, trace);
}

/// A pong that comes after the timeout counts as a timeout, not as an answer.
pub proof fn lemma_late_pong_is_a_timeout(s: SessionView, now: u64)
    requires
        s.pending.len() > 0,
        timed_out(s.pending[0], now, s.timeout_ms),
    ensures
        s.step(InputView::Pong, now).1.reports == seq![
            EventView::Timeout { exchange: s.exchange },
        ],
        s.step(InputView::Pong, now).0.pending == s.pending.drop_first(),
{
}

/// A frame of market data leaves no trace: neither in the state of the session, nor in what it
/// reports.
pub proof fn lemma_data_leaves_no_trace(start: SessionView, trace: Trace, now: u64)
    ensures
        after(start, trace.push((InputView::Data, now))) == after(start, trace),
        reports(start, trace.push((InputView::Data, now))) == reports(start, trace),
        pings(start, trace.push((InputView::Data, now))) == pings(start, trace),
{
    assert(trace.push((InputView::Data, now)).drop_last() =~= trace);
}

/// What a session reports is about its own exchange.
pub proof fn lemma_reports_name_exchange(start: SessionView, trace: Trace, i: int)
    requires
        0 <= i < reports(start, trace).len(),
    ensures
        reports(start, trace)[i].about() == start.exchange,
    decreases trace.len(),
{
    let prefix = trace.drop_last();
    lemma_session_identity(start, prefix);
    if i < reports(start, prefix).len() {
        lemma_reports_name_exchange(start, prefix, i);
    }
}

/// A session reports its connection before anything else, and reports it once. It never reports
/// its own end.
pub proof fn lemma_connection_reported_first(start: SessionView, trace: Trace, i: int)
    requires
        fresh(start),
        expected(start, trace),
        0 <= i < reports(start, trace).len(),
    ensures
        reports(start, trace)[i] is Connected <==> i == 0,
        !(reports(start, trace)[i] is Disconnected),
    decreases trace.len(),
{
    let prefix = trace.drop_last();
    lemma_connecting_only_at_start(start, prefix);
    if i < reports(start, prefix).len() {
        lemma_connection_reported_first(start, prefix, i);
    }
}

/// A session waits for its connection only before its first input; unless the connection failed,
/// it has reported something after that.
proof fn lemma_connecting_only_at_start(start: SessionView, trace: Trace)
    requires
        fresh(start),
        expected(start, trace),
    ensures
        after(start, trace).phase == Phase::Connecting <==> trace.len() == 0,
        reports(start, trace).len() == 0 ==> after(start, trace).phase == Phase::Connecting || after(
            start,
            trace,
        ).phase == Phase::Over,
        trace.len() == 0 ==> after(start, trace) == start,
    decreases trace.len(),
{
    if trace.len() > 0 {
        lemma_connecting_only_at_start(start, trace.drop_last());
    }
}

/// A step settles as many pings as it takes out of flight.
proof fn lemma_step_accounts(s: SessionView, input: InputView, now: u64)
    ensures
        settled(s.step(input, now).1.reports) + s.step(input, now).0.pending.len()
            == s.pending.len() + if s.phase == Phase::Pinging && input is Sent {
            1nat
        } else {
            0nat
        },
{
    let events = s.step(input, now).1.reports;
    if input is Tick {
        lemma_in_time(s.pending, now, s.timeout_ms);
        lemma_settled_all(events);
    } else if events.len() > 0 {
        reveal_with_fuel(settled, 2);
    }
}

/// What two series of events settle, they settle together.
proof fn lemma_settled_adds(a: Seq<EventView>, b: Seq<EventView>)
    ensures
        settled(a + b) == settled(a) + settled(b),
    decreases b.len(),
{
    if b.len() == 0 {
        assert(a + b =~= a);
    } else {
        assert((a + b).drop_last() =~= a + b.drop_last());
        lemma_settled_adds(a, b.drop_last());
    }
}

/// Each timeout settles a ping.
proof fn lemma_settled_all(events: Seq<EventView>)
    requires
        forall|i: int| 0 <= i < events.len() ==> events[i] is Timeout,
    ensures
        settled(events) == events.len(),
    decreases events.len(),
{
    if events.len() > 0 {
        lemma_settled_all(events.drop_last());
    }
}

/// A ping is overdue or in time, and those in time are not late.
proof fn lemma_in_time(pending: Seq<u64>, now: u64, timeout_ms: u64)
    ensures
        in_time(pending, now, timeout_ms).len() + overdue(pending, now, timeout_ms)
            == pending.len(),
        forall|i: int|
            0 <= i < in_time(pending, now, timeout_ms).len() ==> !timed_out(
                #[trigger] in_time(pending, now, timeout_ms)[i],
                now,
                timeout_ms,
            ),
    decreases pending.len(),
{
    if pending.len() > 0 {
        lemma_in_time(pending.drop_last(), now, timeout_ms);
    }
}

/// Of pings in the order of their sending, the late ones come first.
proof fn lemma_late_pings_come_first(pending: Seq<u64>, now: u64, timeout_ms: u64)
    requires
        ascending(pending),
    ensures
        overdue(pending, now, timeout_ms) <= pending.len(),
        in_time(pending, now, timeout_ms) == pending.skip(
            overdue(pending, now, timeout_ms) as int,
        ),
        pending.len() > 0 && timed_out(pending.last(), now, timeout_ms) ==> overdue(
            pending,
            now,
            timeout_ms,
        ) == pending.len(),
    decreases pending.len(),
{
    if pending.len() > 0 {
        lemma_late_pings_come_first(pending.drop_last(), now, timeout_ms);
    }
}

/// Pings are sent one after the other, and none later than the last input.
proof fn lemma_pings_in_order(start: SessionView, trace: Trace)
    requires
        in_order(trace),
    ensures
        ascending(pings(start, trace)),
        pings(start, trace).len() > 0 ==> trace.len() > 0 && pings(start, trace).last()
            <= trace.last().1,
    decreases trace.len(),
{
    if trace.len() > 0 {
        lemma_pings_in_order(start, trace.drop_last());
    }
}

} // verus!
