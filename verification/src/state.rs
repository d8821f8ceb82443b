//! States for SSB processing, in the notation with upper-case section headers.
pub mod ssb_state;
