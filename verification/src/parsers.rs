//! Parsers for the levels of SSB data.
pub mod ssb;
pub mod ssb_render;
pub mod tags;
pub mod geometries;
