//! Data types of SSB: events, view, fonts, textures and tag values.
use vstd::prelude::*;
use crate::text::str_eq;
use vstd::view::View as DataView;
pub use crate::utils::state::{Mode, Section, ShapeSegmentType};

verus! {

/// The type of the segments that follow in a shape.
pub type SegmentType = ShapeSegmentType;

/// When an event is shown: by an identifier, or from a start to an end time (milliseconds).
#[derive(Debug, PartialEq)]
pub enum EventTrigger {
    Id(String),
    Time((u32, u32)),
}

impl Clone for EventTrigger {
    fn clone(&self) -> (r: Self)
        ensures
            r@ == self@,
    {
        match self {
            EventTrigger::Id(id) => EventTrigger::Id(id.clone()),
            EventTrigger::Time((start, end)) => EventTrigger::Time((*start, *end)),
        }
    }
}

/// `EventTrigger` as a mathematical value.
pub enum TriggerModel {
    Id(Seq<char>),
    Time(u32, u32),
}

impl DataView for EventTrigger {
    type V = TriggerModel;

    open spec fn view(&self) -> TriggerModel {
        match self {
            EventTrigger::Id(id) => TriggerModel::Id(id@),
            EventTrigger::Time((start, end)) => TriggerModel::Time(*start, *end),
        }
    }
}

/// An event of a script, as it was written.
#[derive(Debug, PartialEq)]
pub struct Event {
    pub trigger: EventTrigger,
    pub macro_name: Option<String>,
    pub note: Option<String>,
    pub data: String,
    /// Line and byte column where the event data starts.
    pub data_location: (usize, usize),
}

/// A copy of an optional string.
fn clone_opt(s: &Option<String>) -> (r: Option<String>)
    ensures
        opt_view(r) == opt_view(*s),
{
    match s {
        Some(x) => Some(x.clone()),
        None => None,
    }
}

impl Clone for Event {
    fn clone(&self) -> (r: Self)
        ensures
            r@ == self@,
    {
        Event {
            trigger: self.trigger.clone(),
            macro_name: clone_opt(&self.macro_name),
            note: clone_opt(&self.note),
            data: self.data.clone(),
            data_location: self.data_location,
        }
    }
}

/// `Event` as a mathematical value.
pub struct EventModel {
    pub trigger: TriggerModel,
    pub macro_name: Option<Seq<char>>,
    pub note: Option<Seq<char>>,
    pub data: Seq<char>,
    pub data_location: (usize, usize),
}

/// The view of an optional string.
pub open spec fn opt_view(s: Option<String>) -> Option<Seq<char>> {
    match s {
        Some(x) => Some(x@),
        None => None,
    }
}

impl DataView for Event {
    type V = EventModel;

    open spec fn view(&self) -> EventModel {
        EventModel {
            trigger: self.trigger@,
            macro_name: opt_view(self.macro_name),
            note: opt_view(self.note),
            data: self.data@,
            data_location: self.data_location,
        }
    }
}

/// The projection used for the target.
#[derive(Debug, PartialEq, Eq, Structural, Clone, Copy)]
pub enum View {
    Perspective,
    Orthogonal,
}

/// The view that a value names (`perspective`, `orthogonal`).
pub open spec fn view_of(value: Seq<char>) -> Option<View> {
    if value == "perspective"@ {
        Some(View::Perspective)
    } else if value == "orthogonal"@ {
        Some(View::Orthogonal)
    } else {
        None
    }
}

/// The word that names a view in a script.
pub open spec fn view_word(x: View) -> Seq<char> {
    match x {
        View::Perspective => seq!['p', 'e', 'r', 's', 'p', 'e', 'c', 't', 'i', 'v', 'e'],
        View::Orthogonal => seq!['o', 'r', 't', 'h', 'o', 'g', 'o', 'n', 'a', 'l'],
    }
}

/// Each view is named by its own word, and by no other: the word of a view reads back as
/// that view, and a word that names a view is that view's word. So no two words name the
/// same view.
pub proof fn law_view_words(x: View, value: Seq<char>)
    ensures
        view_of(view_word(x)) == Some(x),
        view_of(value) matches Some(y) ==> value == view_word(y),
{
    reveal_strlit("perspective");
    reveal_strlit("orthogonal");
    assert("perspective"@ =~= view_word(View::Perspective));
    assert("orthogonal"@ =~= view_word(View::Orthogonal));
}

impl View {
    /// The view that a value names.
    pub fn try_from(value: &str) -> (r: Result<View, ()>)
        ensures
            r == (match view_of(value@) {
                Some(v) => Ok(v),
                None => Err(()),
            }),
    {
        if str_eq(value, "perspective") {
            Ok(View::Perspective)
        } else if str_eq(value, "orthogonal") {
            Ok(View::Orthogonal)
        } else {
            Err(())
        }
    }
}

/// A font: family name and style.
#[derive(Debug, PartialEq, Eq, Hash, Clone)]
pub struct FontFace {
    pub family: String,
    pub style: FontStyle,
}

impl FontFace {
    /// `family (Style)`, as the font is displayed.
    pub fn to_string(&self) -> (s: String)
        ensures
            s@ == self.family@ + " ("@ + font_style_name(self.style) + ")"@,
    {
        let mut s = self.family.clone();
        s.append(" (");
        s.append(self.style.debug_name());
        s.append(")");
        s
    }
}

impl DataView for FontFace {
    type V = (Seq<char>, FontStyle);

    open spec fn view(&self) -> (Seq<char>, FontStyle) {
        (self.family@, self.style)
    }
}

/// The style of a font.
#[derive(Debug, PartialEq, Eq, Structural, Hash, Clone, Copy)]
pub enum FontStyle {
    Regular,
    Bold,
    Italic,
    BoldItalic,
}

/// The style that a value names (`regular`, `bold`, `italic`, `bold-italic`).
pub open spec fn font_style_of(value: Seq<char>) -> Option<FontStyle> {
    if value == "regular"@ {
        Some(FontStyle::Regular)
    } else if value == "bold"@ {
        Some(FontStyle::Bold)
    } else if value == "italic"@ {
        Some(FontStyle::Italic)
    } else if value == "bold-italic"@ {
        Some(FontStyle::BoldItalic)
    } else {
        None
    }
}

/// The name of a style as it is displayed.
pub open spec fn font_style_name(style: FontStyle) -> Seq<char> {
    match style {
        FontStyle::Regular => "Regular"@,
        FontStyle::Bold => "Bold"@,
        FontStyle::Italic => "Italic"@,
        FontStyle::BoldItalic => "BoldItalic"@,
    }
}

/// The word that names a style in a script.
pub open spec fn font_style_word(style: FontStyle) -> Seq<char> {
    match style {
        FontStyle::Regular => seq!['r', 'e', 'g', 'u', 'l', 'a', 'r'],
        FontStyle::Bold => seq!['b', 'o', 'l', 'd'],
        FontStyle::Italic => seq!['i', 't', 'a', 'l', 'i', 'c'],
        FontStyle::BoldItalic => seq!['b', 'o', 'l', 'd', '-', 'i', 't', 'a', 'l', 'i', 'c'],
    }
}

/// Each style is named by its own word, and by no other: the word of a style reads back as
/// that style, and a word that names a style is that style's word. So no two words name the
/// same style.
pub proof fn law_font_style_words(style: FontStyle, value: Seq<char>)
    ensures
        font_style_of(font_style_word(style)) == Some(style),
        font_style_of(value) matches Some(s) ==> value == font_style_word(s),
{
    reveal_strlit("regular");
    reveal_strlit("bold");
    reveal_strlit("italic");
    reveal_strlit("bold-italic");
    assert("regular"@ =~= font_style_word(FontStyle::Regular));
    assert("bold"@ =~= font_style_word(FontStyle::Bold));
    assert("italic"@ =~= font_style_word(FontStyle::Italic));
    assert("bold-italic"@ =~= font_style_word(FontStyle::BoldItalic));
}

impl FontStyle {
    /// The style that a value names.
    pub fn try_from(value: &str) -> (r: Result<FontStyle, ()>)
        ensures
            r == (match font_style_of(value@) {
                Some(s) => Ok(s),
                None => Err(()),
            }),
    {
        if str_eq(value, "regular") {
            Ok(FontStyle::Regular)
        } else if str_eq(value, "bold") {
            Ok(FontStyle::Bold)
        } else if str_eq(value, "italic") {
            Ok(FontStyle::Italic)
        } else if str_eq(value, "bold-italic") {
            Ok(FontStyle::BoldItalic)
        } else {
            Err(())
        }
    }

    /// The name of the style as it is displayed.
    pub fn debug_name(&self) -> (s: &'static str)
        ensures
            s@ == font_style_name(*self),
    {
        match self {
            FontStyle::Regular => "Regular",
            FontStyle::Bold => "Bold",
            FontStyle::Italic => "Italic",
            FontStyle::BoldItalic => "BoldItalic",
        }
    }
}

/// Font data: the bytes of a font file.
pub type FontData = Vec<u8>;

/// The identifier of a texture.
pub type TextureId = String;

/// Texture data: the bytes of an image file.
pub type TextureData = Vec<u8>;

/// How texture data is given in a script.
#[derive(Debug, PartialEq, Eq, Structural, Clone, Copy)]
pub enum TextureDataType {
    Raw,
    Url,
}

/// The texture data type that a value names (`data`, `url`).
pub open spec fn texture_data_type_of(value: Seq<char>) -> Option<TextureDataType> {
    if value == "data"@ {
        Some(TextureDataType::Raw)
    } else if value == "url"@ {
        Some(TextureDataType::Url)
    } else {
        None
    }
}

/// The word that names a texture data type in a script.
pub open spec fn texture_data_type_word(x: TextureDataType) -> Seq<char> {
    match x {
        TextureDataType::Raw => seq!['d', 'a', 't', 'a'],
        TextureDataType::Url => seq!['u', 'r', 'l'],
    }
}

/// Each texture data type is named by its own word, and by no other: the word of a texture data type reads back as
/// that texture data type, and a word that names a texture data type is that texture data type's word. So no two words name the
/// same texture data type.
pub proof fn law_texture_data_type_words(x: TextureDataType, value: Seq<char>)
    ensures
        texture_data_type_of(texture_data_type_word(x)) == Some(x),
        texture_data_type_of(value) matches Some(y) ==> value == texture_data_type_word(y),
{
    reveal_strlit("data");
    reveal_strlit("url");
    assert("data"@ =~= texture_data_type_word(TextureDataType::Raw));
    assert("url"@ =~= texture_data_type_word(TextureDataType::Url));
}

impl TextureDataType {
    /// The texture data type that a value names.
    pub fn try_from(value: &str) -> (r: Result<TextureDataType, ()>)
        ensures
            r == (match texture_data_type_of(value@) {
                Some(t) => Ok(t),
                None => Err(()),
            }),
    {
        if str_eq(value, "data") {
            Ok(TextureDataType::Raw)
        } else if str_eq(value, "url") {
            Ok(TextureDataType::Url)
        } else {
            Err(())
        }
    }
}

/// Texture data of a script: decoded bytes, or the location of a file.
#[derive(Debug, PartialEq, Clone)]
pub enum TextureDataVariant {
    Raw(Vec<u8>),
    Url(String),
}

/// `TextureDataVariant` as a mathematical value.
pub enum TextureModel {
    Raw(Seq<u8>),
    Url(Seq<char>),
}

impl DataView for TextureDataVariant {
    type V = TextureModel;

    open spec fn view(&self) -> TextureModel {
        match self {
            TextureDataVariant::Raw(data) => TextureModel::Raw(data@),
            TextureDataVariant::Url(url) => TextureModel::Url(url@),
        }
    }
}

/// A position by the numeric keypad.
#[derive(Debug, PartialEq, Eq, Structural, Clone, Copy)]
pub enum Numpad {
    TopLeft,
    TopCenter,
    TopRight,
    MiddleLeft,
    MiddleCenter,
    MiddleRight,
    BottomLeft,
    BottomCenter,
    BottomRight,
}

/// The position of key `value` on the numeric keypad (1 is bottom left, 9 top right).
pub open spec fn numpad_of(value: u8) -> Option<Numpad> {
    if value == 1 {
        Some(Numpad::BottomLeft)
    } else if value == 2 {
        Some(Numpad::BottomCenter)
    } else if value == 3 {
        Some(Numpad::BottomRight)
    } else if value == 4 {
        Some(Numpad::MiddleLeft)
    } else if value == 5 {
        Some(Numpad::MiddleCenter)
    } else if value == 6 {
        Some(Numpad::MiddleRight)
    } else if value == 7 {
        Some(Numpad::TopLeft)
    } else if value == 8 {
        Some(Numpad::TopCenter)
    } else if value == 9 {
        Some(Numpad::TopRight)
    } else {
        None
    }
}

impl Numpad {
    /// The position of key `value` on the numeric keypad.
    pub fn try_from(value: u8) -> (r: Result<Numpad, ()>)
        ensures
            r == (match numpad_of(value) {
                Some(n) => Ok(n),
                None => Err(()),
            }),
    {
        match value {
            1 => Ok(Numpad::BottomLeft),
            2 => Ok(Numpad::BottomCenter),
            3 => Ok(Numpad::BottomRight),
            4 => Ok(Numpad::MiddleLeft),
            5 => Ok(Numpad::MiddleCenter),
            6 => Ok(Numpad::MiddleRight),
            7 => Ok(Numpad::TopLeft),
            8 => Ok(Numpad::TopCenter),
            9 => Ok(Numpad::TopRight),
            _ => Err(()),
        }
    }
}

/// The row of a keypad position, counted from the bottom (0 to 2).
pub open spec fn numpad_row(p: Numpad) -> int {
    match p {
        Numpad::BottomLeft | Numpad::BottomCenter | Numpad::BottomRight => 0,
        Numpad::MiddleLeft | Numpad::MiddleCenter | Numpad::MiddleRight => 1,
        Numpad::TopLeft | Numpad::TopCenter | Numpad::TopRight => 2,
    }
}

/// The column of a keypad position, counted from the left (0 to 2).
pub open spec fn numpad_column(p: Numpad) -> int {
    match p {
        Numpad::BottomLeft | Numpad::MiddleLeft | Numpad::TopLeft => 0,
        Numpad::BottomCenter | Numpad::MiddleCenter | Numpad::TopCenter => 1,
        Numpad::BottomRight | Numpad::MiddleRight | Numpad::TopRight => 2,
    }
}

/// Keys 1 to 9 of the numeric keypad, and no others, name positions: key `n` is the position
/// in row `(n - 1) / 3` from the bottom and column `(n - 1) % 3` from the left. So every
/// position has exactly one key.
pub proof fn law_numpad_keys(value: u8)
    ensures
        numpad_of(value) is Some <==> 1 <= value <= 9,
        numpad_of(value) matches Some(p) ==> numpad_row(p) == (value - 1) / 3 && numpad_column(p)
            == (value - 1) % 3,
{
}

/// How text wraps.
#[derive(Debug, PartialEq, Eq, Structural, Clone, Copy)]
pub enum WrapStyle {
    Space,
    Character,
    NoWrap,
}

/// The wrap style that a value names (`space`, `character`, `nowrap`).
pub open spec fn wrap_style_of(value: Seq<char>) -> Option<WrapStyle> {
    if value == "space"@ {
        Some(WrapStyle::Space)
    } else if value == "character"@ {
        Some(WrapStyle::Character)
    } else if value == "nowrap"@ {
        Some(WrapStyle::NoWrap)
    } else {
        None
    }
}

/// The word that names a wrap style in a script.
pub open spec fn wrap_style_word(x: WrapStyle) -> Seq<char> {
    match x {
        WrapStyle::Space => seq!['s', 'p', 'a', 'c', 'e'],
        WrapStyle::Character => seq!['c', 'h', 'a', 'r', 'a', 'c', 't', 'e', 'r'],
        WrapStyle::NoWrap => seq!['n', 'o', 'w', 'r', 'a', 'p'],
    }
}

/// Each wrap style is named by its own word, and by no other: the word of a wrap style reads back as
/// that wrap style, and a word that names a wrap style is that wrap style's word. So no two words name the
/// same wrap style.
pub proof fn law_wrap_style_words(x: WrapStyle, value: Seq<char>)
    ensures
        wrap_style_of(wrap_style_word(x)) == Some(x),
        wrap_style_of(value) matches Some(y) ==> value == wrap_style_word(y),
{
    reveal_strlit("space");
    reveal_strlit("character");
    reveal_strlit("nowrap");
    assert("space"@ =~= wrap_style_word(WrapStyle::Space));
    assert("character"@ =~= wrap_style_word(WrapStyle::Character));
    assert("nowrap"@ =~= wrap_style_word(WrapStyle::NoWrap));
}

impl WrapStyle {
    /// The wrap style that a value names.
    pub fn try_from(value: &str) -> (r: Result<WrapStyle, ()>)
        ensures
            r == (match wrap_style_of(value@) {
                Some(w) => Ok(w),
                None => Err(()),
            }),
    {
        if str_eq(value, "space") {
            Ok(WrapStyle::Space)
        } else if str_eq(value, "character") {
            Ok(WrapStyle::Character)
        } else if str_eq(value, "nowrap") {
            Ok(WrapStyle::NoWrap)
        } else {
            Err(())
        }
    }
}

/// The direction of text.
#[derive(Debug, PartialEq, Eq, Structural, Clone, Copy)]
pub enum Direction {
    LeftToRight,
    RightToLeft,
    TopToBottom,
    BottomToTop,
}

/// The direction that a value names (`ltr`, `rtl`, `ttb`, `btt`).
pub open spec fn direction_of(value: Seq<char>) -> Option<Direction> {
    if value == "ltr"@ {
        Some(Direction::LeftToRight)
    } else if value == "rtl"@ {
        Some(Direction::RightToLeft)
    } else if value == "ttb"@ {
        Some(Direction::TopToBottom)
    } else if value == "btt"@ {
        Some(Direction::BottomToTop)
    } else {
        None
    }
}

/// The word that names a direction in a script.
pub open spec fn direction_word(x: Direction) -> Seq<char> {
    match x {
        Direction::LeftToRight => seq!['l', 't', 'r'],
        Direction::RightToLeft => seq!['r', 't', 'l'],
        Direction::TopToBottom => seq!['t', 't', 'b'],
        Direction::BottomToTop => seq!['b', 't', 't'],
    }
}

/// Each direction is named by its own word, and by no other: the word of a direction reads back as
/// that direction, and a word that names a direction is that direction's word. So no two words name the
/// same direction.
pub proof fn law_direction_words(x: Direction, value: Seq<char>)
    ensures
        direction_of(direction_word(x)) == Some(x),
        direction_of(value) matches Some(y) ==> value == direction_word(y),
{
    reveal_strlit("ltr");
    reveal_strlit("rtl");
    reveal_strlit("ttb");
    reveal_strlit("btt");
    assert("rtl"@[0] != "ltr"@[0]);
    assert("ttb"@[0] != "ltr"@[0]);
    assert("ttb"@[0] != "rtl"@[0]);
    assert("btt"@[0] != "ltr"@[0]);
    assert("btt"@[0] != "rtl"@[0]);
    assert("btt"@[0] != "ttb"@[0]);
    assert("ltr"@ =~= direction_word(Direction::LeftToRight));
    assert("rtl"@ =~= direction_word(Direction::RightToLeft));
    assert("ttb"@ =~= direction_word(Direction::TopToBottom));
    assert("btt"@ =~= direction_word(Direction::BottomToTop));
}

impl Direction {
    /// The direction that a value names.
    pub fn try_from(value: &str) -> (r: Result<Direction, ()>)
        ensures
            r == (match direction_of(value@) {
                Some(d) => Ok(d),
                None => Err(()),
            }),
    {
        if str_eq(value, "ltr") {
            Ok(Direction::LeftToRight)
        } else if str_eq(value, "rtl") {
            Ok(Direction::RightToLeft)
        } else if str_eq(value, "ttb") {
            Ok(Direction::TopToBottom)
        } else if str_eq(value, "btt") {
            Ok(Direction::BottomToTop)
        } else {
            Err(())
        }
    }
}

} // verus!
