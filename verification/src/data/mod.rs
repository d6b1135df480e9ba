//! Data types that are passed between nodes and used to describe graphs.

pub mod model;
pub mod path;
pub mod integer;
pub mod parse;
pub mod order;
pub mod ordering;
pub mod text;
pub mod time;
pub mod value;
pub mod assemble;
pub mod convert;
pub mod error;
pub mod compare;
pub mod frame;
pub mod schema;

pub use frame::{Frame, FrameType, Signal};
pub use time::Timestamp;
pub use value::{DataMap, FloatBits, Value};
