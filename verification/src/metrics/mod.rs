//! Metrics and event kinds of tasks and services.

pub mod event;
pub mod kind;
pub mod measure;
pub mod registry;
pub mod task;

pub use event::{EventId, EventRecord, MetricsEvents};
pub use kind::MetricsEventKind;
pub use measure::{Counter, Gauge};
