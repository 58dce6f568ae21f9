//! Fine-grained timing of HTTPS request life cycles, from a client's
//! point of view.
//!
//! Instrumented components time each protocol-boundary transition of a
//! request — name resolution, TCP connect, TLS negotiation, headers
//! received, body complete — and emit samples against metric keys.  A
//! collector drains the samples from a multi-producer channel into
//! counters, gauges and latency histograms, and exposes immutable
//! percentile snapshots per key.
//!
//! The request life cycle itself is modelled as an explicit plan and
//! stage tracker: given a destination, [`lifecycle::plan_request`]
//! decides whether resolution and a TLS handshake are needed, and
//! [`lifecycle::RequestTracker`] says which sample each completed
//! stage emits.  The caller — an HTTP engine around this crate —
//! performs the I/O of each stage and reports back.

pub mod client;
pub mod collector;
pub mod config;
pub mod counter;
pub mod events;
pub mod gauge;
pub mod histogram;
pub mod host;
pub mod lifecycle;
pub mod metric;
pub mod report;
pub mod sample;
pub mod snapshots;
pub mod statistics;
pub mod stopwatch;
pub mod timing;
pub mod util;

pub use crate::collector::{Collector, CollectorHandle, Interest};
pub use crate::metric::Metric;
pub use crate::sample::{Sample, SampleValue};
pub use crate::snapshots::{HistoSnapshot, Percentile, Snapshot};
pub use crate::stopwatch::Stopwatch;
