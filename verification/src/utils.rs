//! Utility structures & functions for data processing.
pub mod functions;
pub mod state;

pub use functions::convert::parse_timestamp;
pub use functions::event_iter::{EscapedText, TagGeometryIterator};
pub use functions::macros::flatten_macro;
