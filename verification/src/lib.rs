//! Core data model and configuration logic of the Toy dataflow engine.

pub mod context;
pub mod data;
pub mod error;
pub mod flow;
pub mod graph;
pub mod metrics;
pub mod mpsc;
pub mod node_channel;
pub mod registry;
pub mod service;
pub mod supervisor;
pub mod task;
mod id;
mod service_id;
mod service_type;
mod service_uri;

pub use data::model;
pub use service_id::ServiceId;
pub use service_type::ServiceType;
pub use service_uri::Uri;
