//! A write-only binary encoder: scalars are written in place, short byte
//! blobs are framed inline, and long blobs are deferred to a trailing blob
//! area that `flush_blobs` writes at the end of the session.

mod sink;
pub mod model;
pub mod encoder;
pub mod scalar;

pub use encoder::SerializerState;
pub use scalar::{FixedStr, Serializable, VarStr};
