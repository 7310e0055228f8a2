//! The settings of the monitor.

use vstd::prelude::*;

verus! {

/// Milliseconds between pings, unless set otherwise.
pub const DEFAULT_INTERVAL_MS: u64 = 1000;

/// Seconds between reports, unless set otherwise.
pub const DEFAULT_REPORT_SEC: u64 = 10;

/// Latencies that are kept of each exchange, unless set otherwise.
pub const DEFAULT_WINDOW: usize = 100;

/// Milliseconds after which a ping counts as lost, unless set otherwise.
pub const DEFAULT_TIMEOUT_MS: u64 = 5000;

/// Maximum reconnect attempts per exchange, unless set otherwise; zero for no limit.
pub const DEFAULT_MAX_RECONNECTS: u32 = 0;

/// The settings of the monitor.
#[derive(Clone, Copy, Debug, PartialEq, Eq)]
pub struct Config {
    /// Milliseconds between pings.
    pub interval: u64,
    /// Seconds between reports.
    pub report: u64,
    /// Latencies that are kept of each exchange.
    pub window: usize,
    /// Milliseconds after which a ping counts as lost.
    pub timeout: u64,
    /// Maximum reconnect attempts per exchange; zero for no limit.
    pub max_reconnects: u32,
}

impl Default for Config {
    fn default() -> (r: Config)
        ensures
            r == (Config {
                interval: DEFAULT_INTERVAL_MS,
                report: DEFAULT_REPORT_SEC,
                window: DEFAULT_WINDOW,
                timeout: DEFAULT_TIMEOUT_MS,
                max_reconnects: DEFAULT_MAX_RECONNECTS,
            }),
    {
        Config {
            interval: DEFAULT_INTERVAL_MS,
            report: DEFAULT_REPORT_SEC,
            window: DEFAULT_WINDOW,
            timeout: DEFAULT_TIMEOUT_MS,
            max_reconnects: DEFAULT_MAX_RECONNECTS,
        }
    }
}

/// Unless set otherwise: a ping each second, a report each 10 seconds, 100 latencies kept, a ping
/// lost after 5 seconds, and no limit to the reconnects.
pub proof fn lemma_defaults()
    ensures
        DEFAULT_INTERVAL_MS == 1000,
        DEFAULT_REPORT_SEC == 10,
        DEFAULT_WINDOW == 100,
        DEFAULT_TIMEOUT_MS == 5000,
        DEFAULT_MAX_RECONNECTS == 0,
{
}

} // verus!
