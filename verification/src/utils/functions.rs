//! Conversions, event data iteration and macro flattening.
pub mod convert;
pub mod event_iter;
pub mod macros;
pub mod option;
