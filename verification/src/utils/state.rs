//! States of SSB processing: sections of a script, geometry modes, shape segment types.
use vstd::prelude::*;
use crate::text::str_eq;

verus! {

/// A section of an SSB script.
#[derive(Debug, PartialEq, Eq, Structural, Clone, Copy)]
pub enum Section {
    Info,
    Target,
    Macros,
    Events,
    Resources,
}

/// The section that a section header line names (`#Info`, `#Target`, `#Macros`, `#Events`,
/// `#Resources`).
pub open spec fn section_of(value: Seq<char>) -> Option<Section> {
    if value == "#Info"@ {
        Some(Section::Info)
    } else if value == "#Target"@ {
        Some(Section::Target)
    } else if value == "#Macros"@ {
        Some(Section::Macros)
    } else if value == "#Events"@ {
        Some(Section::Events)
    } else if value == "#Resources"@ {
        Some(Section::Resources)
    } else {
        None
    }
}

/// The header line of a section.
pub open spec fn section_header(section: Section) -> Seq<char> {
    match section {
        Section::Info => "#Info"@,
        Section::Target => "#Target"@,
        Section::Macros => "#Macros"@,
        Section::Events => "#Events"@,
        Section::Resources => "#Resources"@,
    }
}

impl Section {
    /// The section that a header line names.
    pub fn try_from(value: &str) -> (r: Result<Section, ()>)
        ensures
            r == (match section_of(value@) {
                Some(s) => Ok(s),
                None => Err(()),
            }),
    {
        if str_eq(value, "#Info") {
            Ok(Section::Info)
        } else if str_eq(value, "#Target") {
            Ok(Section::Target)
        } else if str_eq(value, "#Macros") {
            Ok(Section::Macros)
        } else if str_eq(value, "#Events") {
            Ok(Section::Events)
        } else if str_eq(value, "#Resources") {
            Ok(Section::Resources)
        } else {
            Err(())
        }
    }
}

/// The header line of each section names that section.
pub proof fn law_section_header_roundtrip(section: Section)
    ensures
        section_of(section_header(section)) == Some(section),
{
    reveal_strlit("#Info");
    reveal_strlit("#Target");
    reveal_strlit("#Macros");
    reveal_strlit("#Events");
    reveal_strlit("#Resources");
    assert("#Info"@[1] == 'I');
    assert("#Target"@[1] == 'T');
    assert("#Macros"@[1] == 'M');
    assert("#Events"@[1] == 'E');
    assert("#Resources"@[1] == 'R');
}

/// How the geometry of an event is read.
#[derive(Debug, PartialEq, Eq, Structural, Clone, Copy)]
pub enum Mode {
    Text,
    Points,
    Shape,
}

impl Default for Mode {
    fn default() -> (m: Self)
        ensures
            m == Mode::Text,
    {
        Mode::Text
    }
}

/// The mode that a mode tag value names (`text`, `points`, `shape`).
pub open spec fn mode_of(value: Seq<char>) -> Option<Mode> {
    if value == "text"@ {
        Some(Mode::Text)
    } else if value == "points"@ {
        Some(Mode::Points)
    } else if value == "shape"@ {
        Some(Mode::Shape)
    } else {
        None
    }
}

/// The word that names a mode in a script.
pub open spec fn mode_word(x: Mode) -> Seq<char> {
    match x {
        Mode::Text => seq!['t', 'e', 'x', 't'],
        Mode::Points => seq!['p', 'o', 'i', 'n', 't', 's'],
        Mode::Shape => seq!['s', 'h', 'a', 'p', 'e'],
    }
}

/// Each mode is named by its own word, and by no other: the word of a mode reads back as
/// that mode, and a word that names a mode is that mode's word. So no two words name the
/// same mode.
pub proof fn law_mode_words(x: Mode, value: Seq<char>)
    ensures
        mode_of(mode_word(x)) == Some(x),
        mode_of(value) matches Some(y) ==> value == mode_word(y),
{
    reveal_strlit("text");
    reveal_strlit("points");
    reveal_strlit("shape");
    assert("text"@ =~= mode_word(Mode::Text));
    assert("points"@ =~= mode_word(Mode::Points));
    assert("shape"@ =~= mode_word(Mode::Shape));
}

impl Mode {
    /// The mode that a mode tag value names.
    pub fn try_from(value: &str) -> (r: Result<Mode, ()>)
        ensures
            r == (match mode_of(value@) {
                Some(m) => Ok(m),
                None => Err(()),
            }),
    {
        if str_eq(value, "text") {
            Ok(Mode::Text)
        } else if str_eq(value, "points") {
            Ok(Mode::Points)
        } else if str_eq(value, "shape") {
            Ok(Mode::Shape)
        } else {
            Err(())
        }
    }
}

/// The type of the segments that follow in a shape.
#[derive(Debug, PartialEq, Eq, Structural, Clone, Copy)]
pub enum ShapeSegmentType {
    Move,
    Line,
    Curve,
    Arc,
}

impl Default for ShapeSegmentType {
    fn default() -> (t: Self)
        ensures
            t == ShapeSegmentType::Move,
    {
        ShapeSegmentType::Move
    }
}

} // verus!
