//! What a session owes for each input, whatever its exchange, its timeout and its pings in flight.

use crate::exchange::{Event, EventView, ExchangeView};
use crate::session::{
    events_of, in_time, opened, overdue, Frame, FrameView, Input, InputView, Next, NextView, Phase,
    SessionError, SessionErrorView, SessionView, Step,
};
use vstd::prelude::*;

verus! {

/// A pong that comes while a ping is in flight, no longer after the oldest of them than the
/// timeout, is measured: one latency is reported, of the session's exchange, and it is the time
/// from that ping to the pong. The ping leaves the flight and the others stay.
pub proof fn lemma_pong_in_time_is_measured(s: SessionView, now: u64)
    requires
        s.pending.len() > 0,
        now - s.pending[0] <= s.timeout_ms * 1_000_000,
    ensures
        s.step(InputView::Pong, now).1.reports.len() == 1,
        s.step(InputView::Pong, now).1.reports[0] matches EventView::Latency { exchange, ns } && {
            &&& exchange == s.exchange
            &&& now >= s.pending[0] ==> ns == now - s.pending[0]
            &&& now < s.pending[0] ==> ns == 0
        },
        s.step(InputView::Pong, now).1.next == NextView::Wait,
        s.step(InputView::Pong, now).0.pending == s.pending.skip(1),
{
}

/// A pong that comes later than the timeout after the oldest ping in flight is not measured: one
/// timeout is reported. The ping leaves the flight and the others stay.
pub proof fn lemma_pong_too_late_is_lost(s: SessionView, now: u64)
    requires
        s.pending.len() > 0,
        now - s.pending[0] > s.timeout_ms * 1_000_000,
    ensures
        s.step(InputView::Pong, now).1.reports == seq![
            EventView::Timeout { exchange: s.exchange },
        ],
        s.step(InputView::Pong, now).1.next == NextView::Wait,
        s.step(InputView::Pong, now).0.pending == s.pending.skip(1),
{
}

/// A pong that no ping asked for changes nothing and is not reported.
pub proof fn lemma_pong_unasked_is_ignored(s: SessionView, now: u64)
    requires
        s.pending.len() == 0,
    ensures
        s.step(InputView::Pong, now).0 == s,
        s.step(InputView::Pong, now).1.reports.len() == 0,
        s.step(InputView::Pong, now).1.next == NextView::Wait,
{
}

/// The round trip of a ping: where none is in flight, a tick asks for a ping, and once it is sent
/// the pong is reported with exactly the time that lies between. Afterwards the session is where
/// it was.
pub proof fn lemma_round_trip(s: SessionView, tick: u64, sent: u64, pong: u64)
    requires
        s.phase == Phase::Idle,
        s.pending.len() == 0,
        sent <= pong,
        pong - sent <= s.timeout_ms * 1_000_000,
    ensures
        ({
            let pinging = s.step(InputView::Tick, tick);
            let waiting = pinging.0.step(InputView::Sent, sent);
            let done = waiting.0.step(InputView::Pong, pong);
            &&& pinging.1.next == (NextView::Send { frame: FrameView::Ping { data: seq![] } })
            &&& pinging.0.expects(InputView::Sent)
            &&& waiting.1.next == NextView::Wait
            &&& waiting.0.expects(InputView::Pong)
            &&& pinging.1.reports.len() == 0
            &&& waiting.1.reports.len() == 0
            &&& done.1.reports.len() == 1
            &&& done.1.reports[0] == (EventView::Latency {
                exchange: s.exchange,
                ns: (pong - sent) as u64,
            })
            &&& done.0 == s
        }),
{
    let pinging = s.step(InputView::Tick, tick);
    let waiting = pinging.0.step(InputView::Sent, sent);
    let done = waiting.0.step(InputView::Pong, pong);
    assert(pinging.0.pending =~= seq![]);
    assert(done.0.pending =~= s.pending);
}

/// A ping of the server is answered with a pong of the same payload, whatever is in flight. Nothing
/// is reported, and once the pong is sent the session waits on as before.
pub proof fn lemma_server_ping_is_answered(s: SessionView, data: Seq<u8>, now: u64, later: u64)
    requires
        s.phase == Phase::Idle,
    ensures
        s.step(InputView::Ping { data }, now).1.next == (NextView::Send {
            frame: FrameView::Pong { data },
        }),
        s.step(InputView::Ping { data }, now).1.reports.len() == 0,
        s.step(InputView::Ping { data }, now).0.pending == s.pending,
        s.step(InputView::Ping { data }, now).0.expects(InputView::Sent),
        s.step(InputView::Ping { data }, now).0.step(InputView::Sent, later).0 == s,
        s.step(InputView::Ping { data }, now).0.step(InputView::Sent, later).1.reports.len() == 0,
        s.step(InputView::Ping { data }, now).0.step(InputView::Sent, later).1.next
            == NextView::Wait,
{
}

/// A frame of market data changes nothing and is not reported.
pub proof fn lemma_data_is_ignored(s: SessionView, now: u64)
    ensures
        s.step(InputView::Data, now).0 == s,
        s.step(InputView::Data, now).1.reports.len() == 0,
        s.step(InputView::Data, now).1.next == NextView::Wait,
{
}

/// Every tick asks for a ping without payload, and takes out of flight exactly the pings that were
/// sent longer ago than the timeout. For each of these one timeout is reported, and nothing else.
pub proof fn lemma_tick_pings_and_drops(s: SessionView, now: u64, i: int)
    ensures
        s.step(InputView::Tick, now).1.next == (NextView::Send {
            frame: FrameView::Ping { data: seq![] },
        }),
        s.step(InputView::Tick, now).0.phase == Phase::Pinging,
        s.step(InputView::Tick, now).0.pending == s.pending.filter(
            |sent: u64| now - sent <= s.timeout_ms * 1_000_000,
        ),
        s.step(InputView::Tick, now).1.reports.len() == s.pending.filter(
            |sent: u64| now - sent > s.timeout_ms * 1_000_000,
        ).len(),
        0 <= i < s.step(InputView::Tick, now).1.reports.len() ==> s.step(
            InputView::Tick,
            now,
        ).1.reports[i] == (EventView::Timeout { exchange: s.exchange }),
{
    lemma_filters(s.pending, now, s.timeout_ms);
}

/// A ping is in flight from the time at which it was sent, behind those that are in flight
/// already. What else is sent is no ping.
pub proof fn lemma_sent_ping_is_in_flight(s: SessionView, now: u64)
    ensures
        s.phase == Phase::Pinging ==> s.step(InputView::Sent, now).0.pending == s.pending + seq![
            now,
        ],
        s.phase != Phase::Pinging ==> s.step(InputView::Sent, now).0.pending == s.pending,
        s.step(InputView::Sent, now).0.phase == Phase::Idle,
        s.step(InputView::Sent, now).1.reports.len() == 0,
        s.step(InputView::Sent, now).1.next == NextView::Wait,
{
    assert(s.pending.push(now) =~= s.pending + seq![now]);
}

/// A connection is reported at once. Then the subscription is sent, where there is one, and the
/// session waits.
pub proof fn lemma_connection_is_reported(s: SessionView, now: u64, later: u64)
    ensures
        s.step(InputView::Connected, now).1.reports == seq![
            EventView::Connected { exchange: s.exchange },
        ],
        s.subscribe_msg matches Some(payload) ==> {
            let subscribing = s.step(InputView::Connected, now);
            &&& subscribing.1.next == (NextView::Send { frame: FrameView::Text { payload } })
            &&& subscribing.0.expects(InputView::Sent)
            &&& subscribing.0.step(InputView::Sent, later).0 == (SessionView {
                phase: Phase::Idle,
                ..s
            })
            &&& subscribing.0.step(InputView::Sent, later).1.next == NextView::Wait
        },
        s.subscribe_msg is None ==> {
            &&& s.step(InputView::Connected, now).1.next == NextView::Wait
            &&& s.step(InputView::Connected, now).0 == (SessionView { phase: Phase::Idle, ..s })
        },
{
}

/// Each failure, and the server's Close frame, ends the session with the error that tells of it.
/// Nothing is reported.
pub proof fn lemma_failures_end_the_session(s: SessionView, error: Seq<char>, now: u64)
    ensures
        s.step(InputView::Close, now).1.next == (NextView::Finish {
            error: SessionErrorView::Closed,
        }),
        s.step(InputView::StreamEnded, now).1.next == (NextView::Finish {
            error: SessionErrorView::Ended,
        }),
        s.step(InputView::StreamFailed { error }, now).1.next == (NextView::Finish {
            error: SessionErrorView::Stream { error },
        }),
        s.step(InputView::ConnectFailed { error }, now).1.next == (NextView::Finish {
            error: SessionErrorView::Connect { error },
        }),
        s.step(InputView::SendFailed { error }, now).1.next == (NextView::Finish {
            error: SessionErrorView::Send { error },
        }),
        forall|input: InputView|
            (input is Close || input is StreamEnded || input is StreamFailed
                || input is ConnectFailed || input is SendFailed) ==> {
                &&& (#[trigger] s.step(input, now)).1.next is Finish
                &&& s.step(input, now).1.reports.len() == 0
                &&& s.step(input, now).0 == (SessionView { phase: Phase::Over, ..s })
            },
{
}

/// Only a failure or the server's Close frame ends a session.
pub proof fn lemma_nothing_else_ends_the_session(s: SessionView, input: InputView, now: u64)
    requires
        !(input is Close),
        !(input is StreamEnded),
        !(input is StreamFailed),
        !(input is ConnectFailed),
        !(input is SendFailed),
        s.phase != Phase::Over,
    ensures
        !(s.step(input, now).1.next is Finish),
        s.step(input, now).0.phase != Phase::Over,
{
}

/// A session waits for exactly what can come of what it asked for: the outcome of a connection, the
/// outcome of sending a frame, or a frame or a tick; and after its end for nothing.
pub proof fn lemma_answers_are_expected(
    s: SessionView,
    input: InputView,
    now: u64,
    answer: InputView,
)
    requires
        s.expects(input),
    ensures
        ({
            let (after, step) = s.step(input, now);
            &&& !(step.next is Connect)
            &&& step.next is Send ==> (after.expects(answer) <==> answer is Sent
                || answer is SendFailed)
            &&& step.next is Wait ==> (after.expects(answer) <==> !(answer is Connected)
                && !(answer is ConnectFailed) && !(answer is Sent) && !(answer is SendFailed))
            &&& step.next is Finish ==> !after.expects(answer)
        }),
{
}

/// A session asks for its connection at the parsed address, takes its exchange and its timeout from
/// what it was opened with, and has no ping in flight. Where the address could not be parsed it
/// ends at once, with the error of the parser.
pub proof fn lemma_opening(
    exchange: ExchangeView,
    timeout_ms: u64,
    text: Seq<char>,
    answer: InputView,
)
    ensures
        ({
            let (s, next) = opened(exchange, timeout_ms, Ok(text));
            &&& next == (NextView::Connect { url: text })
            &&& s.exchange == exchange.name
            &&& s.subscribe_msg == exchange.subscribe_msg
            &&& s.timeout_ms == timeout_ms
            &&& s.pending.len() == 0
            &&& s.expects(answer) <==> answer is Connected || answer is ConnectFailed
        }),
        ({
            let (s, next) = opened(exchange, timeout_ms, Err(text));
            &&& next == (NextView::Finish { error: SessionErrorView::Url { error: text } })
            &&& !s.expects(answer)
        }),
{
}

/// The errors in words: those of the parser and of the sender as they are, the others behind the
/// exchange's name in brackets.
pub proof fn lemma_error_words(exchange: Seq<char>, error: Seq<char>)
    ensures
        (SessionErrorView::Url { error }).message(exchange) == error,
        (SessionErrorView::Send { error }).message(exchange) == error,
        (SessionErrorView::Connect { error }).message(exchange) == "["@ + exchange
            + "] connect failed — "@ + error,
        (SessionErrorView::Stream { error }).message(exchange) == "["@ + exchange
            + "] stream error — "@ + error,
        SessionErrorView::Closed.message(exchange) == "["@ + exchange
            + "] server sent Close frame"@,
        SessionErrorView::Ended.message(exchange) == "["@ + exchange
            + "] stream ended unexpectedly"@,
{
}

/// What is said of an input, a frame, an action, an error and an event is what it holds.
pub proof fn lemma_views_are_faithful(
    input: Input,
    frame: Frame,
    next: Next,
    error: SessionError,
    event: Event,
)
    ensures
        match input {
            Input::Connected => input@ == InputView::Connected,
            Input::ConnectFailed { error: e } => input@ == (InputView::ConnectFailed { error: e@ }),
            Input::Sent => input@ == InputView::Sent,
            Input::SendFailed { error: e } => input@ == (InputView::SendFailed { error: e@ }),
            Input::Pong => input@ == InputView::Pong,
            Input::Ping { data } => input@ == (InputView::Ping { data: data@ }),
            Input::Close => input@ == InputView::Close,
            Input::Data => input@ == InputView::Data,
            Input::StreamFailed { error: e } => input@ == (InputView::StreamFailed { error: e@ }),
            Input::StreamEnded => input@ == InputView::StreamEnded,
            Input::Tick => input@ == InputView::Tick,
        },
        match frame {
            Frame::Text { payload } => frame@ == (FrameView::Text { payload: payload@ }),
            Frame::Ping { data } => frame@ == (FrameView::Ping { data: data@ }),
            Frame::Pong { data } => frame@ == (FrameView::Pong { data: data@ }),
        },
        match next {
            Next::Connect { url } => next@ == (NextView::Connect { url: url@ }),
            Next::Send { frame: f } => next@ == (NextView::Send { frame: f@ }),
            Next::Wait => next@ == NextView::Wait,
            Next::Finish { error: e } => next@ == (NextView::Finish { error: e@ }),
        },
        match error {
            SessionError::Url { error: e } => error@ == (SessionErrorView::Url { error: e@ }),
            SessionError::Connect { error: e } => error@ == (SessionErrorView::Connect {
                error: e@,
            }),
            SessionError::Send { error: e } => error@ == (SessionErrorView::Send { error: e@ }),
            SessionError::Stream { error: e } => error@ == (SessionErrorView::Stream { error: e@ }),
            SessionError::Closed => error@ == SessionErrorView::Closed,
            SessionError::Ended => error@ == SessionErrorView::Ended,
        },
        match event {
            Event::Latency { exchange, ns } => event@ == (EventView::Latency {
                exchange: exchange@,
                ns,
            }),
            Event::Timeout { exchange } => event@ == (EventView::Timeout { exchange: exchange@ }),
            Event::Connected { exchange } => event@ == (EventView::Connected {
                exchange: exchange@,
            }),
            Event::Disconnected { exchange } => event@ == (EventView::Disconnected {
                exchange: exchange@,
            }),
        },
{
}

/// What is said of a step is what it holds: each of its events, in their order, and its action.
pub proof fn lemma_step_view_is_faithful(step: Step, events: Seq<Event>, i: int)
    ensures
        step@.next == step.next@,
        step@.reports.len() == step.reports@.len(),
        0 <= i < step.reports@.len() ==> step@.reports[i] == step.reports@[i]@,
        events_of(events).len() == events.len(),
        0 <= i < events.len() ==> events_of(events)[i] == events[i]@,
{
}

/// The pings in time are those sent no longer ago than the timeout; the others are overdue.
proof fn lemma_filters(pending: Seq<u64>, now: u64, timeout_ms: u64)
    ensures
        in_time(pending, now, timeout_ms) == pending.filter(
            |sent: u64| now - sent <= timeout_ms * 1_000_000,
        ),
        overdue(pending, now, timeout_ms) == pending.filter(
            |sent: u64| now - sent > timeout_ms * 1_000_000,
        ).len(),
    decreases pending.len(),
{
    reveal(Seq::filter);
    if pending.len() > 0 {
        lemma_filters(pending.drop_last(), now, timeout_ms);
    }
}

} // verus!
