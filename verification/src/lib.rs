//! The decisions of a WebSocket latency monitor.
//!
//! Workers keep sessions with a set of exchanges (`worker`, `session`), report what they measure
//! (`exchange`), and an aggregator keeps rolling statistics (`aggregator`, `metrics`, `stats`),
//! which are shown as coloured text (`report`, `style`, `clock`). The laws of the sessions, the
//! statistics, the aggregator and the display stand in modules of their own.

pub mod aggregator;
pub mod aggregator_laws;
pub mod band;
pub mod clock;
pub mod config;
pub mod display_laws;
pub mod exchange;
pub mod metrics;
pub mod metrics_laws;
pub mod report;
pub mod report_laws;
pub mod session;
pub mod session_laws;
pub mod stats;
pub mod step_laws;
pub mod style;
pub mod text;
pub mod text_laws;
pub mod wide;
pub mod worker;
