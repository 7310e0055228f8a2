//! When a worker opens the next session with its exchange, and when it gives up.

use crate::exchange::{Event, EventView};
use vstd::prelude::*;

verus! {

/// The wait grows by this much with each attempt.
pub const BACKOFF_STEP_MS: u64 = 500;

/// The attempt from which the wait grows no further.
pub const BACKOFF_CAP: u32 = 20;

/// What a worker does once a session is over.
#[derive(Clone, Copy, Debug, PartialEq, Eq)]
pub enum Retry {
    /// Give up.
    Stop,
    /// Wait, then open the next session.
    After { wait_ms: u64, attempt: u32 },
}

/// The wait before the session that follows the given number of sessions.
pub open spec fn backoff_ms(attempts: nat) -> nat {
    BACKOFF_STEP_MS as nat * if attempts <= BACKOFF_CAP {
        attempts
    } else {
        BACKOFF_CAP as nat
    }
}

/// The state of a [`Worker`].
pub struct WorkerView {
    pub exchange: Seq<char>,
    /// Maximum reconnect attempts; zero for no limit.
    pub max_reconnects: u32,
    /// How many sessions have ended; the count stays at the largest 32-bit number.
    pub attempts: u32,
}

impl WorkerView {
    /// The worker after the end of another session.
    pub open spec fn ended(self) -> WorkerView {
        WorkerView {
            attempts: if self.attempts < u32::MAX {
                (self.attempts + 1) as u32
            } else {
                u32::MAX
            },
            ..self
        }
    }

    /// Whether the reconnect attempts are used up once another session ends. The first session is
    /// no reconnect.
    pub open spec fn gives_up(self) -> bool {
        self.max_reconnects > 0 && self.attempts + 1 > self.max_reconnects
    }

    /// What the worker does when another session ends.
    pub open spec fn retry(self) -> Retry {
        if self.gives_up() {
            Retry::Stop
        } else {
            Retry::After {
                wait_ms: backoff_ms(self.attempts as nat + 1) as u64,
                attempt: self.ended().attempts,
            }
        }
    }
}

/// Counts the sessions with one exchange and decides on the next.
#[derive(Debug)]
pub struct Worker {
    exchange: &'static str,
    max_reconnects: u32,
    attempts: u32,
}

impl View for Worker {
    type V = WorkerView;

    closed spec fn view(&self) -> WorkerView {
        WorkerView {
            exchange: self.exchange@,
            max_reconnects: self.max_reconnects,
            attempts: self.attempts,
        }
    }
}

impl Worker {
    /// A worker that has not had a session yet.
    pub fn new(exchange: &'static str, max_reconnects: u32) -> (r: Worker)
        ensures
            r@ == (WorkerView { exchange: exchange@, max_reconnects, attempts: 0 }),
    {
        Worker { exchange, max_reconnects, attempts: 0 }
    }

    /// How many sessions have ended; the count stays at the largest 32-bit number.
    pub fn attempts(&self) -> (r: u32)
        ensures
            r == self@.attempts,
    {
        self.attempts
    }

    /// Takes note that a session is over: what to report, and what to do next.
    pub fn session_over(&mut self) -> (r: (Event, Retry))
        ensures
            final(self)@ == old(self)@.ended(),
            r.0@ == (EventView::Disconnected { exchange: old(self)@.exchange }),
            r.1 == old(self)@.retry(),
    {
        let report = Event::Disconnected { exchange: self.exchange };
        let used_up: bool = self.max_reconnects > 0 && self.attempts >= self.max_reconnects;
        self.attempts = self.attempts.saturating_add(1);
        if used_up {
            return (report, Retry::Stop);
        }
        let steps: u32 = if self.attempts < BACKOFF_CAP {
            self.attempts
        } else {
            BACKOFF_CAP
        };
        let wait_ms: u64 = BACKOFF_STEP_MS * (steps as u64);
        (report, Retry::After { wait_ms, attempt: self.attempts })
    }
}

/// The worker after the ends of `n` sessions.
pub open spec fn after_sessions(worker: WorkerView, n: nat) -> WorkerView
    decreases n,
{
    if n == 0 {
        worker
    } else {
        after_sessions(worker, (n - 1) as nat).ended()
    }
}

/// The wait is 500 ms after the first session, never shrinks, and is 10 s from the twentieth
/// session on.
pub proof fn lemma_backoff_bounds(attempts: nat, later: nat)
    requires
        1 <= attempts <= later,
    ensures
        backoff_ms(1) == 500,
        500 <= backoff_ms(attempts) <= backoff_ms(later) <= 10_000,
        attempts >= 20 ==> backoff_ms(attempts) == 10_000,
        attempts <= 20 ==> backoff_ms(attempts) == 500 * attempts,
{
}

/// Each session that ends is counted, as far as 32 bits go, and nothing else changes.
pub proof fn lemma_sessions_counted(worker: WorkerView, n: nat)
    ensures
        after_sessions(worker, n) == (WorkerView {
            attempts: if worker.attempts + n <= u32::MAX {
                (worker.attempts + n) as u32
            } else {
                u32::MAX
            },
            ..worker
        }),
    decreases n,
{
    if n > 0 {
        lemma_sessions_counted(worker, (n - 1) as nat);
    }
}

/// A worker with a limit reconnects that many times: it stops at the end of its `n`th session
/// exactly when `n` is one more than the limit, the first session being no reconnect.
pub proof fn lemma_reconnect_limit(worker: WorkerView, n: nat)
    requires
        worker.attempts == 0,
        worker.max_reconnects > 0,
        1 <= n <= worker.max_reconnects + 1,
    ensures
        after_sessions(worker, (n - 1) as nat).retry() is Stop <==> n == worker.max_reconnects + 1,
{
    lemma_sessions_counted(worker, (n - 1) as nat);
}

/// A worker whose limit is zero never gives up, however many sessions end.
pub proof fn lemma_no_limit(worker: WorkerView, n: nat)
    requires
        worker.max_reconnects == 0,
    ensures
        after_sessions(worker, n).retry() is After,
{
    lemma_sessions_counted(worker, n);
}

/// What a worker does at the end of a session, by the number of sessions that ended before: it
/// stops exactly when a limit is set and that many reconnects were made; otherwise it waits 500 ms
/// for each session that has ended, but no longer than 10 s, and numbers the attempt.
pub proof fn lemma_retry(worker: WorkerView)
    ensures
        worker.retry() is Stop <==> worker.max_reconnects > 0 && worker.attempts
            >= worker.max_reconnects,
        worker.retry() matches Retry::After { wait_ms, attempt } ==> {
            &&& worker.attempts < 20 ==> wait_ms == 500 * (worker.attempts + 1)
            &&& worker.attempts >= 20 ==> wait_ms == 10_000
            &&& worker.attempts < u32::MAX ==> attempt == worker.attempts + 1
            &&& worker.attempts == u32::MAX ==> attempt == u32::MAX
        },
        worker.ended().exchange == worker.exchange,
        worker.ended().max_reconnects == worker.max_reconnects,
        worker.attempts < u32::MAX ==> worker.ended().attempts == worker.attempts + 1,
        worker.attempts == u32::MAX ==> worker.ended().attempts == u32::MAX,
{
}

} // verus!
