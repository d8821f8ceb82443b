//! Sections with upper-case headers (`#INFO`, ...); modes and segment types.
use vstd::prelude::*;
use crate::text::str_eq;
pub use crate::utils::state::{Mode, ShapeSegmentType};

verus! {

/// A section of an SSB script, named by an upper-case header.
#[derive(Debug, PartialEq, Eq, Structural, Clone, Copy)]
pub enum Section {
    Info,
    Target,
    Macros,
    Events,
    Resources,
}

/// The section that an upper-case header line names (`#INFO`, `#TARGET`, `#MACROS`,
/// `#EVENTS`, `#RESOURCES`).
pub open spec fn section_of(value: Seq<char>) -> Option<Section> {
    if value == "#INFO"@ {
        Some(Section::Info)
    } else if value == "#TARGET"@ {
        Some(Section::Target)
    } else if value == "#MACROS"@ {
        Some(Section::Macros)
    } else if value == "#EVENTS"@ {
        Some(Section::Events)
    } else if value == "#RESOURCES"@ {
        Some(Section::Resources)
    } else {
        None
    }
}

impl Section {
    /// The section that an upper-case header line names.
    pub fn try_from(value: &str) -> (r: Result<Section, ()>)
        ensures
            r == (match section_of(value@) {
                Some(s) => Ok(s),
                None => Err(()),
            }),
    {
        if str_eq(value, "#INFO") {
            Ok(Section::Info)
        } else if str_eq(value, "#TARGET") {
            Ok(Section::Target)
        } else if str_eq(value, "#MACROS") {
            Ok(Section::Macros)
        } else if str_eq(value, "#EVENTS") {
            Ok(Section::Events)
        } else if str_eq(value, "#RESOURCES") {
            Ok(Section::Resources)
        } else {
            Err(())
        }
    }
}

} // verus!
