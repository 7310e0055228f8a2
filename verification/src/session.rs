//! One WebSocket session as a state machine.
//!
//! A [`Session`] decides; its driver acts. The driver performs the [`Next`] that it was given and
//! hands back what came of it as an [`Input`], with the time in nanoseconds on a clock of its own
//! that never runs backwards. The session runs until a step tells the driver to finish.
//!
//! A pong is taken as the answer to the oldest ping in flight: the server is assumed to answer
//! every ping, in the order in which the pings came. Of a server that answers only the latest of
//! several pings, as the protocol permits, the latencies come out too long.

use crate::exchange::{Event, EventView, Exchange, ExchangeView};
use crate::exchange::text_of;
use std::collections::VecDeque;
use vstd::prelude::*;
use vstd::string::StringExecFns;

verus! {

/// Nanoseconds in a millisecond.
pub const NANOS_PER_MS: u64 = 1_000_000;

/// What `url::Url::parse` makes of a text: the serialization of the address, or the text of the
/// parse error.
pub uninterp spec fn url_parse(input: Seq<char>) -> Result<Seq<char>, Seq<char>>;

/// Parses an address with `url::Url::parse`, and hands back the serialization of the address or
/// the text of the parse error. Which of the two comes, and its text, is a function of the input.
#[verifier::external_body]
fn parse_url(input: &str) -> (r: Result<String, String>)
    ensures
        match r {
            Ok(address) => url_parse(input@) == Ok::<Seq<char>, Seq<char>>(address@),
            Err(error) => url_parse(input@) == Err::<Seq<char>, Seq<char>>(error@),
        },
{
    match url::Url::parse(input) {
        Ok(address) => Ok(address.to_string()),
        Err(error) => Err(error.to_string()),
    }
}

/// Why a session ended. There is no other end: a session runs until something fails.
#[derive(Debug, PartialEq, Eq)]
pub enum SessionError {
    /// The exchange's address could not be parsed.
    Url { error: String },
    /// The connection could not be made.
    Connect { error: String },
    /// A frame could not be sent.
    Send { error: String },
    /// The incoming stream failed.
    Stream { error: String },
    /// The server sent a Close frame.
    Closed,
    /// The incoming stream ended.
    Ended,
}

/// What a [`SessionError`] says.
pub enum SessionErrorView {
    Url { error: Seq<char> },
    Connect { error: Seq<char> },
    Send { error: Seq<char> },
    Stream { error: Seq<char> },
    Closed,
    Ended,
}

impl View for SessionError {
    type V = SessionErrorView;

    open spec fn view(&self) -> SessionErrorView {
        match self {
            SessionError::Url { error } => SessionErrorView::Url { error: error@ },
            SessionError::Connect { error } => SessionErrorView::Connect { error: error@ },
            SessionError::Send { error } => SessionErrorView::Send { error: error@ },
            SessionError::Stream { error } => SessionErrorView::Stream { error: error@ },
            SessionError::Closed => SessionErrorView::Closed,
            SessionError::Ended => SessionErrorView::Ended,
        }
    }
}

impl SessionErrorView {
    /// The error as it is logged for an exchange.
    pub open spec fn message(self, exchange: Seq<char>) -> Seq<char> {
        match self {
            SessionErrorView::Url { error } => error,
            SessionErrorView::Connect { error } => "["@ + exchange + "] connect failed — "@ + error,
            SessionErrorView::Send { error } => error,
            SessionErrorView::Stream { error } => "["@ + exchange + "] stream error — "@ + error,
            SessionErrorView::Closed => "["@ + exchange + "] server sent Close frame"@,
            SessionErrorView::Ended => "["@ + exchange + "] stream ended unexpectedly"@,
        }
    }
}

impl SessionError {
    /// The error as it is logged for an exchange.
    pub fn message(&self, exchange: &str) -> (r: String)
        ensures
            r@ == self@.message(exchange@),
    {
        let mut out = String::new();
        match self {
            SessionError::Url { error } => {
                out.append(error.as_str());
            },
            SessionError::Send { error } => {
                out.append(error.as_str());
            },
            SessionError::Connect { error } => {
                out.append("[");
                out.append(exchange);
                out.append("] connect failed — ");
                out.append(error.as_str());
            },
            SessionError::Stream { error } => {
                out.append("[");
                out.append(exchange);
                out.append("] stream error — ");
                out.append(error.as_str());
            },
            SessionError::Closed => {
                out.append("[");
                out.append(exchange);
                out.append("] server sent Close frame");
            },
            SessionError::Ended => {
                out.append("[");
                out.append(exchange);
                out.append("] stream ended unexpectedly");
            },
        }
        out
    }
}

/// What the driver hands to the session.
#[derive(Debug, PartialEq, Eq)]
pub enum Input {
    /// The connection stands.
    Connected,
    /// The connection could not be made.
    ConnectFailed { error: String },
    /// The frame was sent.
    Sent,
    /// The frame could not be sent.
    SendFailed { error: String },
    /// A Pong frame came in.
    Pong,
    /// A Ping frame came in.
    Ping { data: Vec<u8> },
    /// A Close frame came in.
    Close,
    /// A frame of any other kind came in.
    Data,
    /// The incoming stream failed.
    StreamFailed { error: String },
    /// The incoming stream ended.
    StreamEnded,
    /// The ping interval has passed.
    Tick,
}

/// What an [`Input`] says.
pub enum InputView {
    Connected,
    ConnectFailed { error: Seq<char> },
    Sent,
    SendFailed { error: Seq<char> },
    Pong,
    Ping { data: Seq<u8> },
    Close,
    Data,
    StreamFailed { error: Seq<char> },
    StreamEnded,
    Tick,
}

impl View for Input {
    type V = InputView;

    open spec fn view(&self) -> InputView {
        match self {
            Input::Connected => InputView::Connected,
            Input::ConnectFailed { error } => InputView::ConnectFailed { error: error@ },
            Input::Sent => InputView::Sent,
            Input::SendFailed { error } => InputView::SendFailed { error: error@ },
            Input::Pong => InputView::Pong,
            Input::Ping { data } => InputView::Ping { data: data@ },
            Input::Close => InputView::Close,
            Input::Data => InputView::Data,
            Input::StreamFailed { error } => InputView::StreamFailed { error: error@ },
            Input::StreamEnded => InputView::StreamEnded,
            Input::Tick => InputView::Tick,
        }
    }
}

/// A frame to be sent.
#[derive(Debug, PartialEq, Eq)]
pub enum Frame {
    Text { payload: &'static str },
    Ping { data: Vec<u8> },
    Pong { data: Vec<u8> },
}

/// What a [`Frame`] holds.
pub enum FrameView {
    Text { payload: Seq<char> },
    Ping { data: Seq<u8> },
    Pong { data: Seq<u8> },
}

impl View for Frame {
    type V = FrameView;

    open spec fn view(&self) -> FrameView {
        match self {
            Frame::Text { payload } => FrameView::Text { payload: payload@ },
            Frame::Ping { data } => FrameView::Ping { data: data@ },
            Frame::Pong { data } => FrameView::Pong { data: data@ },
        }
    }
}

/// What the driver has to do next.
#[derive(Debug, PartialEq, Eq)]
pub enum Next {
    /// Connect to the address; the answer is `Connected` or `ConnectFailed`.
    Connect { url: String },
    /// Send the frame; the answer is `Sent` or `SendFailed`.
    Send { frame: Frame },
    /// Wait for the next frame or the next tick, whichever comes first.
    Wait,
    /// Close the session.
    Finish { error: SessionError },
}

/// What a [`Next`] says.
pub enum NextView {
    Connect { url: Seq<char> },
    Send { frame: FrameView },
    Wait,
    Finish { error: SessionErrorView },
}

impl View for Next {
    type V = NextView;

    open spec fn view(&self) -> NextView {
        match self {
            Next::Connect { url } => NextView::Connect { url: url@ },
            Next::Send { frame } => NextView::Send { frame: frame@ },
            Next::Wait => NextView::Wait,
            Next::Finish { error } => NextView::Finish { error: error@ },
        }
    }
}

/// What a list of events says.
pub open spec fn events_of(events: Seq<Event>) -> Seq<EventView> {
    events.map_values(|event: Event| event@)
}

/// What comes of one step: first report the events, if there are any, then do what is next.
#[derive(Debug, PartialEq, Eq)]
pub struct Step {
    pub reports: Vec<Event>,
    pub next: Next,
}

/// What a [`Step`] says.
pub struct StepView {
    pub reports: Seq<EventView>,
    pub next: NextView,
}

impl View for Step {
    type V = StepView;

    open spec fn view(&self) -> StepView {
        StepView { reports: events_of(self.reports@), next: self.next@ }
    }
}

/// What a session is waiting for.
#[derive(Clone, Copy, Debug, PartialEq, Eq, Structural)]
pub enum Phase {
    /// The outcome of the connection attempt.
    Connecting,
    /// The outcome of sending the subscription.
    Subscribing,
    /// A frame or a tick.
    Idle,
    /// The outcome of sending the answer to a Ping frame.
    Replying,
    /// The outcome of sending a ping.
    Pinging,
    /// Nothing: the session is over.
    Over,
}

/// The state of a [`Session`].
pub struct SessionView {
    pub exchange: Seq<char>,
    pub subscribe_msg: Option<Seq<char>>,
    pub timeout_ms: u64,
    pub phase: Phase,
    /// When the pings in flight were sent, the oldest first.
    pub pending: Seq<u64>,
}

/// The time from `start` to `now`; zero when `now` lies before `start`.
pub open spec fn elapsed(start: u64, now: u64) -> u64 {
    if now >= start {
        (now - start) as u64
    } else {
        0
    }
}

/// Whether a ping sent at `sent` has been unanswered for longer than the timeout.
pub open spec fn timed_out(sent: u64, now: u64, timeout_ms: u64) -> bool {
    elapsed(sent, now) > timeout_ms * NANOS_PER_MS
}

/// The pings that have not been unanswered for longer than the timeout, in their order.
pub open spec fn in_time(pending: Seq<u64>, now: u64, timeout_ms: u64) -> Seq<u64>
    decreases pending.len(),
{
    if pending.len() == 0 {
        seq![]
    } else {
        let earlier = in_time(pending.drop_last(), now, timeout_ms);
        if timed_out(pending.last(), now, timeout_ms) {
            earlier
        } else {
            earlier.push(pending.last())
        }
    }
}

/// How many of the pings have been unanswered for longer than the timeout.
pub open spec fn overdue(pending: Seq<u64>, now: u64, timeout_ms: u64) -> nat
    decreases pending.len(),
{
    if pending.len() == 0 {
        0
    } else {
        overdue(pending.drop_last(), now, timeout_ms) + if timed_out(
            pending.last(),
            now,
            timeout_ms,
        ) {
            1nat
        } else {
            0nat
        }
    }
}

/// A step that reports nothing.
pub open spec fn quietly(next: NextView) -> StepView {
    StepView { reports: seq![], next }
}

/// The session and its first action, given what parsing the address came to.
pub open spec fn opened(
    exchange: ExchangeView,
    timeout_ms: u64,
    parsed: Result<Seq<char>, Seq<char>>,
) -> (SessionView, NextView) {
    let session = SessionView {
        exchange: exchange.name,
        subscribe_msg: exchange.subscribe_msg,
        timeout_ms,
        phase: Phase::Connecting,
        pending: seq![],
    };
    match parsed {
        Ok(url) => (session, NextView::Connect { url }),
        Err(error) => (
            SessionView { phase: Phase::Over, ..session },
            NextView::Finish { error: SessionErrorView::Url { error } },
        ),
    }
}

impl SessionView {
    /// Whether the session is waiting for an input of this kind.
    pub open spec fn expects(self, input: InputView) -> bool {
        match self.phase {
            Phase::Connecting => input is Connected || input is ConnectFailed,
            Phase::Subscribing | Phase::Replying | Phase::Pinging => input is Sent
                || input is SendFailed,
            Phase::Idle => input is Pong || input is Ping || input is Close || input is Data
                || input is StreamFailed || input is StreamEnded || input is Tick,
            Phase::Over => false,
        }
    }

    /// The session in another phase.
    pub open spec fn at(self, phase: Phase) -> SessionView {
        SessionView { phase, ..self }
    }

    /// The session after an input, and what comes of it.
    pub open spec fn step(self, input: InputView, now: u64) -> (SessionView, StepView) {
        match input {
            InputView::Connected => {
                let reports = seq![EventView::Connected { exchange: self.exchange }];
                match self.subscribe_msg {
                    Some(payload) => (
                        self.at(Phase::Subscribing),
                        StepView {
                            reports,
                            next: NextView::Send { frame: FrameView::Text { payload } },
                        },
                    ),
                    None => (self.at(Phase::Idle), StepView { reports, next: NextView::Wait }),
                }
            },
            InputView::Sent => (
                SessionView {
                    phase: Phase::Idle,
                    pending: if self.phase == Phase::Pinging {
                        self.pending.push(now)
                    } else {
                        self.pending
                    },
                    ..self
                },
                quietly(NextView::Wait),
            ),
            InputView::Pong => if self.pending.len() == 0 {
                (self, quietly(NextView::Wait))
            } else {
                (
                    SessionView { pending: self.pending.drop_first(), ..self },
                    StepView {
                        reports: seq![self.answered(self.pending[0], now)],
                        next: NextView::Wait,
                    },
                )
            },
            InputView::Ping { data } => (
                self.at(Phase::Replying),
                quietly(NextView::Send { frame: FrameView::Pong { data } }),
            ),
            InputView::Data => (self, quietly(NextView::Wait)),
            InputView::Tick => (
                SessionView {
                    phase: Phase::Pinging,
                    pending: in_time(self.pending, now, self.timeout_ms),
                    ..self
                },
                StepView {
                    reports: self.lost(overdue(self.pending, now, self.timeout_ms)),
                    next: NextView::Send { frame: FrameView::Ping { data: seq![] } },
                },
            ),
            InputView::ConnectFailed { error } => self.failed(SessionErrorView::Connect { error }),
            InputView::SendFailed { error } => self.failed(SessionErrorView::Send { error }),
            InputView::StreamFailed { error } => self.failed(SessionErrorView::Stream { error }),
            InputView::Close => self.failed(SessionErrorView::Closed),
            InputView::StreamEnded => self.failed(SessionErrorView::Ended),
        }
    }

    /// What is reported of a ping that was sent at `sent` and is answered now: its latency, or, of
    /// an answer that comes too late, that the ping timed out.
    pub open spec fn answered(self, sent: u64, now: u64) -> EventView {
        if timed_out(sent, now, self.timeout_ms) {
            EventView::Timeout { exchange: self.exchange }
        } else {
            EventView::Latency { exchange: self.exchange, ns: elapsed(sent, now) }
        }
    }

    /// What is reported of `n` pings that timed out.
    pub open spec fn lost(self, n: nat) -> Seq<EventView> {
        Seq::new(n, |i: int| EventView::Timeout { exchange: self.exchange })
    }

    /// The session after a failure.
    pub open spec fn failed(self, error: SessionErrorView) -> (SessionView, StepView) {
        (self.at(Phase::Over), quietly(NextView::Finish { error }))
    }
}

/// A WebSocket session with one exchange.
#[derive(Debug)]
pub struct Session {
    exchange: &'static str,
    subscribe_msg: Option<&'static str>,
    timeout_ms: u64,
    phase: Phase,
    pending: VecDeque<u64>,
}

impl View for Session {
    type V = SessionView;

    closed spec fn view(&self) -> SessionView {
        SessionView {
            exchange: self.exchange@,
            subscribe_msg: text_of(self.subscribe_msg),
            timeout_ms: self.timeout_ms,
            phase: self.phase,
            pending: self.pending@,
        }
    }
}

impl Session {
    /// Starts a session: parses the exchange's address and asks for the connection.
    pub fn open(exchange: &Exchange, timeout_ms: u64) -> (r: (Session, Next))
        ensures
            (r.0@, r.1@) == opened(exchange@, timeout_ms, url_parse(exchange.url@)),
    {
        Session::open_parsed(exchange, timeout_ms, parse_url(exchange.url))
    }

    /// Starts a session, given the parsed address or the text of the parse error.
    pub fn open_parsed(
        exchange: &Exchange,
        timeout_ms: u64,
        parsed: Result<String, String>,
    ) -> (r: (Session, Next))
        ensures
            (r.0@, r.1@) == opened(
                exchange@,
                timeout_ms,
                match parsed {
                    Ok(url) => Ok(url@),
                    Err(error) => Err(error@),
                },
            ),
    {
        let mut session = Session {
            exchange: exchange.name,
            subscribe_msg: exchange.subscribe_msg,
            timeout_ms,
            phase: Phase::Connecting,
            pending: VecDeque::new(),
        };
        match parsed {
            Ok(url) => (session, Next::Connect { url }),
            Err(error) => {
                session.phase = Phase::Over;
                (session, Next::Finish { error: SessionError::Url { error } })
            },
        }
    }

    /// Whether the session is waiting for an input of this kind.
    pub fn expects(&self, input: &Input) -> (r: bool)
        ensures
            r == self@.expects(input@),
    {
        match self.phase {
            Phase::Connecting => match input {
                Input::Connected | Input::ConnectFailed { .. } => true,
                _ => false,
            },
            Phase::Subscribing | Phase::Replying | Phase::Pinging => match input {
                Input::Sent | Input::SendFailed { .. } => true,
                _ => false,
            },
            Phase::Idle => match input {
                Input::Connected
                | Input::ConnectFailed { .. }
                | Input::Sent
                | Input::SendFailed { .. } => false,
                _ => true,
            },
            Phase::Over => false,
        }
    }

    /// Takes an input and says what comes of it.
    pub fn step(&mut self, input: Input, now: u64) -> (r: Step)
        requires
            old(self)@.expects(input@),
        ensures
            (final(self)@, r@) == old(self)@.step(input@, now),
    {
        let ghost given = input@;
        let r = match input {
            Input::Connected => {
                let reports: Vec<Event> = vec![Event::Connected { exchange: self.exchange }];
                match self.subscribe_msg {
                    Some(payload) => {
                        self.phase = Phase::Subscribing;
                        Step { reports, next: Next::Send { frame: Frame::Text { payload } } }
                    },
                    None => {
                        self.phase = Phase::Idle;
                        Step { reports, next: Next::Wait }
                    },
                }
            },
            Input::Sent => {
                if self.phase == Phase::Pinging {
                    self.pending.push_back(now);
                }
                self.phase = Phase::Idle;
                Step { reports: Vec::new(), next: Next::Wait }
            },
            Input::Pong => {
                let mut reports: Vec<Event> = Vec::new();
                if let Some(sent) = self.pending.pop_front() {
                    let event = if self.is_overdue(sent, now) {
                        Event::Timeout { exchange: self.exchange }
                    } else {
                        Event::Latency { exchange: self.exchange, ns: now.saturating_sub(sent) }
                    };
                    reports.push(event);
                }
                Step { reports, next: Next::Wait }
            },
            Input::Ping { data } => {
                self.phase = Phase::Replying;
                Step { reports: Vec::new(), next: Next::Send { frame: Frame::Pong { data } } }
            },
            Input::Data => Step { reports: Vec::new(), next: Next::Wait },
            Input::Tick => {
                let reports: Vec<Event> = self.drop_overdue(now);
                self.phase = Phase::Pinging;
                let data: Vec<u8> = Vec::new();
                Step { reports, next: Next::Send { frame: Frame::Ping { data } } }
            },
            Input::ConnectFailed { error } => self.fail(SessionError::Connect { error }),
            Input::SendFailed { error } => self.fail(SessionError::Send { error }),
            Input::StreamFailed { error } => self.fail(SessionError::Stream { error }),
            Input::Close => self.fail(SessionError::Closed),
            Input::StreamEnded => self.fail(SessionError::Ended),
        };
        assert(r@.reports =~= old(self)@.step(given, now).1.reports);
        r
    }

    /// Whether a ping sent at `sent` has been unanswered for longer than the timeout.
    fn is_overdue(&self, sent: u64, now: u64) -> (r: bool)
        ensures
            r == timed_out(sent, now, self@.timeout_ms),
    {
        let limit: u128 = self.timeout_ms as u128 * NANOS_PER_MS as u128;
        now.saturating_sub(sent) as u128 > limit
    }

    /// Drops the pings that timed out, and hands back a report for each of them.
    fn drop_overdue(&mut self, now: u64) -> (r: Vec<Event>)
        ensures
            final(self)@ == (SessionView {
                pending: in_time(old(self)@.pending, now, old(self)@.timeout_ms),
                ..old(self)@
            }),
            events_of(r@) == old(self)@.lost(
                overdue(old(self)@.pending, now, old(self)@.timeout_ms),
            ),
    {
        let mut kept: VecDeque<u64> = VecDeque::new();
        let mut reports: Vec<Event> = Vec::new();
        let mut i: usize = 0;
        while i < self.pending.len()
            invariant
                *self == *old(self),
                i <= self.pending@.len(),
                kept@ == in_time(self.pending@.take(i as int), now, self.timeout_ms),
                events_of(reports@) == self@.lost(
                    overdue(self.pending@.take(i as int), now, self.timeout_ms),
                ),
            decreases self.pending@.len() - i,
        {
            let sent: u64 = self.pending[i];
            let ghost next = self.pending@.take(i + 1);
            let ghost earlier = reports@;
            assert(next.drop_last() =~= self.pending@.take(i as int));
            if self.is_overdue(sent, now) {
                reports.push(Event::Timeout { exchange: self.exchange });
                assert(events_of(reports@) =~= events_of(earlier).push(reports@.last()@));
                assert(events_of(reports@) =~= self@.lost(overdue(next, now, self.timeout_ms)));
            } else {
                kept.push_back(sent);
            }
            i = i + 1;
        }
        assert(self.pending@.take(i as int) =~= self.pending@);
        self.pending = kept;
        reports
    }

    /// Ends the session.
    fn fail(&mut self, error: SessionError) -> (r: Step)
        ensures
            (final(self)@, r@) == old(self)@.failed(error@),
    {
        self.phase = Phase::Over;
        let r = Step { reports: Vec::new(), next: Next::Finish { error } };
        assert(r@.reports =~= seq![]);
        r
    }
}

} // verus!
