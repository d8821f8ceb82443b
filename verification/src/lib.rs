//! Parser of text in the SSB subtitle format: reads scripts into ordered structures, checks
//! their entries, and prepares events for rendering by inserting their macros.
pub mod error;
pub mod frame;
pub mod maps;
pub mod objects;
pub mod parsers;
pub mod state;
pub mod text;
pub mod types;
pub mod utils;

pub use error::{MacroError, ParseError};
pub use parsers::ssb::Ssb;
