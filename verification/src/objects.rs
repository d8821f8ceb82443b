//! Objects of event data: tags and geometries, with every non-integer number held as its
//! text (its conversion to a floating-point value happens where such values are at hand).
use vstd::prelude::*;
use vstd::view::View as DataView;
use crate::text::str_eq;
use crate::types::{Direction, Numpad, WrapStyle};

verus! {

/// A tag that switches a style on or off.
#[derive(Debug, PartialEq, Eq, Structural, Clone, Copy)]
pub enum FlagTag {
    Bold,
    Italic,
    Underline,
    Strikeout,
}

/// A tag whose value is one or more numbers.
#[derive(Debug, PartialEq, Eq, Structural, Clone, Copy)]
pub enum NumberTag {
    Size,
    Position,
    AlignmentOffset,
    Margin,
    MarginTop,
    MarginRight,
    MarginBottom,
    MarginLeft,
    Space,
    SpaceHorizontal,
    SpaceVertical,
    RotateX,
    RotateY,
    RotateZ,
    Scale,
    ScaleX,
    ScaleY,
    ScaleZ,
    Translate,
    TranslateX,
    TranslateY,
    TranslateZ,
    Shear,
    ShearX,
    ShearY,
    Matrix,
    Border,
    BorderHorizontal,
    BorderVertical,
    Blur,
    BlurHorizontal,
    BlurVertical,
}

/// How lines are joined.
#[derive(Debug, PartialEq, Eq, Structural, Clone, Copy)]
pub enum Join {
    Miter,
    Round,
    Bevel,
}

/// How lines end.
#[derive(Debug, PartialEq, Eq, Structural, Clone, Copy)]
pub enum Cap {
    Butt,
    Round,
    Square,
}

/// How a texture continues beyond its edges.
#[derive(Debug, PartialEq, Eq, Structural, Clone, Copy)]
pub enum TextureWrapping {
    Pad,
    Clamp,
    Repeat,
    Mirror,
}

/// How drawn pixels blend with the pixels below.
#[derive(Debug, PartialEq, Eq, Structural, Clone, Copy)]
pub enum Blend {
    Overlay,
    Add,
    Subtract,
    Multiply,
    Invert,
    Difference,
    Screen,
}

/// Where drawing goes.
#[derive(Debug, PartialEq, Eq, Structural, Clone, Copy)]
pub enum Target {
    Mask,
    Frame,
}

/// How the mask is applied.
#[derive(Debug, PartialEq, Eq, Structural, Clone, Copy)]
pub enum MaskMode {
    Normal,
    Invert,
}

/// The kind of a shape segment.
#[derive(Debug, PartialEq, Eq, Structural, Clone, Copy)]
pub enum SegmentKind {
    Move,
    Line,
    Curve,
    Arc,
    Close,
}

/// A shape segment: its kind and its numbers as texts (x and y of each point, and the degree
/// of an arc).
#[derive(Debug, PartialEq)]
pub struct SegmentData {
    pub kind: SegmentKind,
    pub numbers: Vec<String>,
}

/// An object of event data; numbers that are not integers are held as their texts.
#[derive(Debug, PartialEq)]
pub enum EventObjectData {
    TagFont(String),
    TagTexture(String),
    TagFlag(FlagTag, bool),
    /// A number tag, its value as written (for error messages) and its numbers.
    TagNumbers { tag: NumberTag, value: String, numbers: Vec<String> },
    /// Texture filling: its value as written, the four coordinates and the wrapping.
    TagTextureFill { value: String, numbers: Vec<String>, wrap: TextureWrapping },
    TagAlignment(Numpad),
    TagWrapStyle(WrapStyle),
    TagDirection(Direction),
    TagJoin(Join),
    TagCap(Cap),
    TagBlend(Blend),
    TagTarget(Target),
    TagMaskMode(MaskMode),
    TagReset,
    TagMaskClear,
    TagColor(Vec<[u8; 3]>),
    TagBorderColor(Vec<[u8; 3]>),
    TagAlpha(Vec<u8>),
    TagBorderAlpha(Vec<u8>),
    /// An animation: its value as written, its time range, its formula, and the number of
    /// objects after it that are its tags.
    TagAnimate { value: String, time: Option<(i32, i32)>, formula: Option<String>, tags: usize },
    TagKaraoke(u32),
    TagKaraokeSet(u32),
    TagKaraokeColor([u8; 3]),
    GeometryText(String),
    /// Points: x and y of each point, one after another.
    GeometryPoints(Vec<String>),
    GeometryShape(Vec<SegmentData>),
}

/// `SegmentData` as a mathematical value.
pub struct SegmentModel {
    pub kind: SegmentKind,
    pub numbers: Seq<Seq<char>>,
}

/// `EventObjectData` as a mathematical value.
pub enum ObjectModel {
    Font(Seq<char>),
    Texture(Seq<char>),
    Flag(FlagTag, bool),
    Numbers(NumberTag, Seq<char>, Seq<Seq<char>>),
    TextureFill(Seq<char>, Seq<Seq<char>>, TextureWrapping),
    Alignment(Numpad),
    WrapStyle(WrapStyle),
    Direction(Direction),
    Join(Join),
    Cap(Cap),
    Blend(Blend),
    Target(Target),
    MaskMode(MaskMode),
    Reset,
    MaskClear,
    Color(Seq<[u8; 3]>),
    BorderColor(Seq<[u8; 3]>),
    Alpha(Seq<u8>),
    BorderAlpha(Seq<u8>),
    Animate(Seq<char>, Option<(i32, i32)>, Option<Seq<char>>, nat),
    Karaoke(u32),
    KaraokeSet(u32),
    KaraokeColor([u8; 3]),
    GeometryText(Seq<char>),
    GeometryPoints(Seq<Seq<char>>),
    GeometryShape(Seq<SegmentModel>),
}

/// The views of a list of strings.
pub open spec fn texts(v: Seq<String>) -> Seq<Seq<char>> {
    v.map_values(|s: String| s@)
}

impl DataView for SegmentData {
    type V = SegmentModel;

    open spec fn view(&self) -> SegmentModel {
        SegmentModel { kind: self.kind, numbers: texts(self.numbers@) }
    }
}

/// The views of a list of segments.
pub open spec fn segments(v: Seq<SegmentData>) -> Seq<SegmentModel> {
    v.map_values(|s: SegmentData| s@)
}

impl DataView for EventObjectData {
    type V = ObjectModel;

    open spec fn view(&self) -> ObjectModel {
        match self {
            EventObjectData::TagFont(s) => ObjectModel::Font(s@),
            EventObjectData::TagTexture(s) => ObjectModel::Texture(s@),
            EventObjectData::TagFlag(f, b) => ObjectModel::Flag(*f, *b),
            EventObjectData::TagNumbers { tag, value, numbers } => ObjectModel::Numbers(
                *tag,
                value@,
                texts(numbers@),
            ),
            EventObjectData::TagTextureFill { value, numbers, wrap } => ObjectModel::TextureFill(
                value@,
                texts(numbers@),
                *wrap,
            ),
            EventObjectData::TagAlignment(n) => ObjectModel::Alignment(*n),
            EventObjectData::TagWrapStyle(w) => ObjectModel::WrapStyle(*w),
            EventObjectData::TagDirection(d) => ObjectModel::Direction(*d),
            EventObjectData::TagJoin(j) => ObjectModel::Join(*j),
            EventObjectData::TagCap(c) => ObjectModel::Cap(*c),
            EventObjectData::TagBlend(b) => ObjectModel::Blend(*b),
            EventObjectData::TagTarget(t) => ObjectModel::Target(*t),
            EventObjectData::TagMaskMode(m) => ObjectModel::MaskMode(*m),
            EventObjectData::TagReset => ObjectModel::Reset,
            EventObjectData::TagMaskClear => ObjectModel::MaskClear,
            EventObjectData::TagColor(c) => ObjectModel::Color(c@),
            EventObjectData::TagBorderColor(c) => ObjectModel::BorderColor(c@),
            EventObjectData::TagAlpha(a) => ObjectModel::Alpha(a@),
            EventObjectData::TagBorderAlpha(a) => ObjectModel::BorderAlpha(a@),
            EventObjectData::TagAnimate { value, time, formula, tags } => ObjectModel::Animate(
                value@,
                *time,
                match formula {
                    Some(f) => Some(f@),
                    None => None,
                },
                *tags as nat,
            ),
            EventObjectData::TagKaraoke(k) => ObjectModel::Karaoke(*k),
            EventObjectData::TagKaraokeSet(k) => ObjectModel::KaraokeSet(*k),
            EventObjectData::TagKaraokeColor(c) => ObjectModel::KaraokeColor(*c),
            EventObjectData::GeometryText(s) => ObjectModel::GeometryText(s@),
            EventObjectData::GeometryPoints(p) => ObjectModel::GeometryPoints(texts(p@)),
            EventObjectData::GeometryShape(s) => ObjectModel::GeometryShape(segments(s@)),
        }
    }
}

/// The views of a list of objects.
pub open spec fn object_models(v: Seq<EventObjectData>) -> Seq<ObjectModel> {
    v.map_values(|o: EventObjectData| o@)
}

/// The word of a number tag in its error message (`Invalid <label> '<value>'!`).
pub open spec fn number_tag_label(tag: NumberTag) -> Seq<char> {
    match tag {
        NumberTag::Size => "size"@,
        NumberTag::Position => "position"@,
        NumberTag::AlignmentOffset => "alignment"@,
        NumberTag::Margin => "margin"@,
        NumberTag::MarginTop => "margin top"@,
        NumberTag::MarginRight => "margin right"@,
        NumberTag::MarginBottom => "margin bottom"@,
        NumberTag::MarginLeft => "margin left"@,
        NumberTag::Space => "space"@,
        NumberTag::SpaceHorizontal => "space horizontal"@,
        NumberTag::SpaceVertical => "space vertical"@,
        NumberTag::RotateX => "rotate x"@,
        NumberTag::RotateY => "rotate y"@,
        NumberTag::RotateZ => "rotate z"@,
        NumberTag::Scale => "scale"@,
        NumberTag::ScaleX => "scale x"@,
        NumberTag::ScaleY => "scale y"@,
        NumberTag::ScaleZ => "scale z"@,
        NumberTag::Translate => "translate"@,
        NumberTag::TranslateX => "translate x"@,
        NumberTag::TranslateY => "translate y"@,
        NumberTag::TranslateZ => "translate z"@,
        NumberTag::Shear => "shear"@,
        NumberTag::ShearX => "shear x"@,
        NumberTag::ShearY => "shear y"@,
        NumberTag::Matrix => "matrix"@,
        NumberTag::Border => "border"@,
        NumberTag::BorderHorizontal => "border horizontal"@,
        NumberTag::BorderVertical => "border vertical"@,
        NumberTag::Blur => "blur"@,
        NumberTag::BlurHorizontal => "blur horizontal"@,
        NumberTag::BlurVertical => "blur vertical"@,
    }
}

impl NumberTag {
    /// The word of the tag in its error message.
    pub fn label(&self) -> (s: &'static str)
        ensures
            s@ == number_tag_label(*self),
    {
        match self {
            NumberTag::Size => "size",
            NumberTag::Position => "position",
            NumberTag::AlignmentOffset => "alignment",
            NumberTag::Margin => "margin",
            NumberTag::MarginTop => "margin top",
            NumberTag::MarginRight => "margin right",
            NumberTag::MarginBottom => "margin bottom",
            NumberTag::MarginLeft => "margin left",
            NumberTag::Space => "space",
            NumberTag::SpaceHorizontal => "space horizontal",
            NumberTag::SpaceVertical => "space vertical",
            NumberTag::RotateX => "rotate x",
            NumberTag::RotateY => "rotate y",
            NumberTag::RotateZ => "rotate z",
            NumberTag::Scale => "scale",
            NumberTag::ScaleX => "scale x",
            NumberTag::ScaleY => "scale y",
            NumberTag::ScaleZ => "scale z",
            NumberTag::Translate => "translate",
            NumberTag::TranslateX => "translate x",
            NumberTag::TranslateY => "translate y",
            NumberTag::TranslateZ => "translate z",
            NumberTag::Shear => "shear",
            NumberTag::ShearX => "shear x",
            NumberTag::ShearY => "shear y",
            NumberTag::Matrix => "matrix",
            NumberTag::Border => "border",
            NumberTag::BorderHorizontal => "border horizontal",
            NumberTag::BorderVertical => "border vertical",
            NumberTag::Blur => "blur",
            NumberTag::BlurHorizontal => "blur horizontal",
            NumberTag::BlurVertical => "blur vertical",
        }
    }
}

/// What the `k`-th number of a segment is, in its error message.
pub open spec fn segment_number_label(kind: SegmentKind, k: int) -> Seq<char> {
    match kind {
        SegmentKind::Move => if k == 0 {
            "X coordinate of move"@
        } else {
            "Y coordinate of move"@
        },
        SegmentKind::Line => if k == 0 {
            "X coordinate of line"@
        } else {
            "Y coordinate of line"@
        },
        SegmentKind::Curve => if k == 0 {
            "X coordinate of curve first point"@
        } else if k == 1 {
            "Y coordinate of curve first point"@
        } else if k == 2 {
            "X coordinate of curve second point"@
        } else if k == 3 {
            "Y coordinate of curve second point"@
        } else if k == 4 {
            "X coordinate of curve third point"@
        } else {
            "Y coordinate of curve third point"@
        },
        SegmentKind::Arc => if k == 0 {
            "X coordinate of arc"@
        } else if k == 1 {
            "Y coordinate of arc"@
        } else {
            "degree of arc"@
        },
        SegmentKind::Close => Seq::empty(),
    }
}

/// The number of numbers of a segment kind.
pub open spec fn segment_arity(kind: SegmentKind) -> nat {
    match kind {
        SegmentKind::Move => 2,
        SegmentKind::Line => 2,
        SegmentKind::Curve => 6,
        SegmentKind::Arc => 3,
        SegmentKind::Close => 0,
    }
}

impl SegmentKind {
    /// What the `k`-th number of a segment of this kind is, in its error message.
    pub fn number_label(&self, k: usize) -> (s: &'static str)
        ensures
            s@ == segment_number_label(*self, k as int),
    {
        match self {
            SegmentKind::Move => if k == 0 {
                "X coordinate of move"
            } else {
                "Y coordinate of move"
            },
            SegmentKind::Line => if k == 0 {
                "X coordinate of line"
            } else {
                "Y coordinate of line"
            },
            SegmentKind::Curve => if k == 0 {
                "X coordinate of curve first point"
            } else if k == 1 {
                "Y coordinate of curve first point"
            } else if k == 2 {
                "X coordinate of curve second point"
            } else if k == 3 {
                "Y coordinate of curve second point"
            } else if k == 4 {
                "X coordinate of curve third point"
            } else {
                "Y coordinate of curve third point"
            },
            SegmentKind::Arc => if k == 0 {
                "X coordinate of arc"
            } else if k == 1 {
                "Y coordinate of arc"
            } else {
                "degree of arc"
            },
            SegmentKind::Close => {
                proof {
                    reveal_strlit("");
                }
                ""
            },
        }
    }
}

/// The join that a value names (`miter`, `round`, `bevel`).
pub open spec fn join_of(v: Seq<char>) -> Option<Join> {
    if v == "miter"@ {
        Some(Join::Miter)
    } else if v == "round"@ {
        Some(Join::Round)
    } else if v == "bevel"@ {
        Some(Join::Bevel)
    } else {
        None
    }
}

/// The word that names a join in a script.
pub open spec fn join_word(x: Join) -> Seq<char> {
    match x {
        Join::Miter => seq!['m', 'i', 't', 'e', 'r'],
        Join::Round => seq!['r', 'o', 'u', 'n', 'd'],
        Join::Bevel => seq!['b', 'e', 'v', 'e', 'l'],
    }
}

/// Each join is named by its own word, and by no other: the word of a join reads back as
/// that join, and a word that names a join is that join's word. So no two words name the
/// same join.
pub proof fn law_join_words(x: Join, value: Seq<char>)
    ensures
        join_of(join_word(x)) == Some(x),
        join_of(value) matches Some(y) ==> value == join_word(y),
{
    reveal_strlit("miter");
    reveal_strlit("round");
    reveal_strlit("bevel");
    assert("round"@[0] != "miter"@[0]);
    assert("bevel"@[0] != "miter"@[0]);
    assert("bevel"@[0] != "round"@[0]);
    assert("miter"@ =~= join_word(Join::Miter));
    assert("round"@ =~= join_word(Join::Round));
    assert("bevel"@ =~= join_word(Join::Bevel));
}

/// The cap that a value names (`butt`, `round`, `square`).
pub open spec fn cap_of(v: Seq<char>) -> Option<Cap> {
    if v == "butt"@ {
        Some(Cap::Butt)
    } else if v == "round"@ {
        Some(Cap::Round)
    } else if v == "square"@ {
        Some(Cap::Square)
    } else {
        None
    }
}

/// The word that names a cap in a script.
pub open spec fn cap_word(x: Cap) -> Seq<char> {
    match x {
        Cap::Butt => seq!['b', 'u', 't', 't'],
        Cap::Round => seq!['r', 'o', 'u', 'n', 'd'],
        Cap::Square => seq!['s', 'q', 'u', 'a', 'r', 'e'],
    }
}

/// Each cap is named by its own word, and by no other: the word of a cap reads back as
/// that cap, and a word that names a cap is that cap's word. So no two words name the
/// same cap.
pub proof fn law_cap_words(x: Cap, value: Seq<char>)
    ensures
        cap_of(cap_word(x)) == Some(x),
        cap_of(value) matches Some(y) ==> value == cap_word(y),
{
    reveal_strlit("butt");
    reveal_strlit("round");
    reveal_strlit("square");
    assert("butt"@ =~= cap_word(Cap::Butt));
    assert("round"@ =~= cap_word(Cap::Round));
    assert("square"@ =~= cap_word(Cap::Square));
}

/// The texture wrapping that a value names (`pad`, `clamp`, `repeat`, `mirror`).
pub open spec fn wrapping_of(v: Seq<char>) -> Option<TextureWrapping> {
    if v == "pad"@ {
        Some(TextureWrapping::Pad)
    } else if v == "clamp"@ {
        Some(TextureWrapping::Clamp)
    } else if v == "repeat"@ {
        Some(TextureWrapping::Repeat)
    } else if v == "mirror"@ {
        Some(TextureWrapping::Mirror)
    } else {
        None
    }
}

/// The word that names a texture wrapping in a script.
pub open spec fn wrapping_word(x: TextureWrapping) -> Seq<char> {
    match x {
        TextureWrapping::Pad => seq!['p', 'a', 'd'],
        TextureWrapping::Clamp => seq!['c', 'l', 'a', 'm', 'p'],
        TextureWrapping::Repeat => seq!['r', 'e', 'p', 'e', 'a', 't'],
        TextureWrapping::Mirror => seq!['m', 'i', 'r', 'r', 'o', 'r'],
    }
}

/// Each texture wrapping is named by its own word, and by no other: the word of a texture wrapping reads back as
/// that texture wrapping, and a word that names a texture wrapping is that texture wrapping's word. So no two words name the
/// same texture wrapping.
pub proof fn law_wrapping_words(x: TextureWrapping, value: Seq<char>)
    ensures
        wrapping_of(wrapping_word(x)) == Some(x),
        wrapping_of(value) matches Some(y) ==> value == wrapping_word(y),
{
    reveal_strlit("pad");
    reveal_strlit("clamp");
    reveal_strlit("repeat");
    reveal_strlit("mirror");
    assert("mirror"@[0] != "repeat"@[0]);
    assert("pad"@ =~= wrapping_word(TextureWrapping::Pad));
    assert("clamp"@ =~= wrapping_word(TextureWrapping::Clamp));
    assert("repeat"@ =~= wrapping_word(TextureWrapping::Repeat));
    assert("mirror"@ =~= wrapping_word(TextureWrapping::Mirror));
}

/// The blend mode that a value names (`overlay`, `add`, `subtract`, `multiply`, `invert`,
/// `difference`, `screen`).
pub open spec fn blend_of(v: Seq<char>) -> Option<Blend> {
    if v == "overlay"@ {
        Some(Blend::Overlay)
    } else if v == "add"@ {
        Some(Blend::Add)
    } else if v == "subtract"@ {
        Some(Blend::Subtract)
    } else if v == "multiply"@ {
        Some(Blend::Multiply)
    } else if v == "invert"@ {
        Some(Blend::Invert)
    } else if v == "difference"@ {
        Some(Blend::Difference)
    } else if v == "screen"@ {
        Some(Blend::Screen)
    } else {
        None
    }
}

/// The word that names a blend mode in a script.
pub open spec fn blend_word(x: Blend) -> Seq<char> {
    match x {
        Blend::Overlay => seq!['o', 'v', 'e', 'r', 'l', 'a', 'y'],
        Blend::Add => seq!['a', 'd', 'd'],
        Blend::Subtract => seq!['s', 'u', 'b', 't', 'r', 'a', 'c', 't'],
        Blend::Multiply => seq!['m', 'u', 'l', 't', 'i', 'p', 'l', 'y'],
        Blend::Invert => seq!['i', 'n', 'v', 'e', 'r', 't'],
        Blend::Difference => seq!['d', 'i', 'f', 'f', 'e', 'r', 'e', 'n', 'c', 'e'],
        Blend::Screen => seq!['s', 'c', 'r', 'e', 'e', 'n'],
    }
}

/// Each blend mode is named by its own word, and by no other: the word of a blend mode reads back as
/// that blend mode, and a word that names a blend mode is that blend mode's word. So no two words name the
/// same blend mode.
pub proof fn law_blend_words(x: Blend, value: Seq<char>)
    ensures
        blend_of(blend_word(x)) == Some(x),
        blend_of(value) matches Some(y) ==> value == blend_word(y),
{
    reveal_strlit("overlay");
    reveal_strlit("add");
    reveal_strlit("subtract");
    reveal_strlit("multiply");
    reveal_strlit("invert");
    reveal_strlit("difference");
    reveal_strlit("screen");
    assert("multiply"@[0] != "subtract"@[0]);
    assert("screen"@[0] != "invert"@[0]);
    assert("overlay"@ =~= blend_word(Blend::Overlay));
    assert("add"@ =~= blend_word(Blend::Add));
    assert("subtract"@ =~= blend_word(Blend::Subtract));
    assert("multiply"@ =~= blend_word(Blend::Multiply));
    assert("invert"@ =~= blend_word(Blend::Invert));
    assert("difference"@ =~= blend_word(Blend::Difference));
    assert("screen"@ =~= blend_word(Blend::Screen));
}

/// The target that a value names (`mask`, `frame`).
pub open spec fn target_of(v: Seq<char>) -> Option<Target> {
    if v == "mask"@ {
        Some(Target::Mask)
    } else if v == "frame"@ {
        Some(Target::Frame)
    } else {
        None
    }
}

/// The word that names a target in a script.
pub open spec fn target_word(x: Target) -> Seq<char> {
    match x {
        Target::Mask => seq!['m', 'a', 's', 'k'],
        Target::Frame => seq!['f', 'r', 'a', 'm', 'e'],
    }
}

/// Each target is named by its own word, and by no other: the word of a target reads back as
/// that target, and a word that names a target is that target's word. So no two words name the
/// same target.
pub proof fn law_target_words(x: Target, value: Seq<char>)
    ensures
        target_of(target_word(x)) == Some(x),
        target_of(value) matches Some(y) ==> value == target_word(y),
{
    reveal_strlit("mask");
    reveal_strlit("frame");
    assert("mask"@ =~= target_word(Target::Mask));
    assert("frame"@ =~= target_word(Target::Frame));
}

/// The mask mode that a value names (`normal`, `invert`).
pub open spec fn mask_mode_of(v: Seq<char>) -> Option<MaskMode> {
    if v == "normal"@ {
        Some(MaskMode::Normal)
    } else if v == "invert"@ {
        Some(MaskMode::Invert)
    } else {
        None
    }
}

/// The word that names a mask mode in a script.
pub open spec fn mask_mode_word(x: MaskMode) -> Seq<char> {
    match x {
        MaskMode::Normal => seq!['n', 'o', 'r', 'm', 'a', 'l'],
        MaskMode::Invert => seq!['i', 'n', 'v', 'e', 'r', 't'],
    }
}

/// Each mask mode is named by its own word, and by no other: the word of a mask mode reads back as
/// that mask mode, and a word that names a mask mode is that mask mode's word. So no two words name the
/// same mask mode.
pub proof fn law_mask_mode_words(x: MaskMode, value: Seq<char>)
    ensures
        mask_mode_of(mask_mode_word(x)) == Some(x),
        mask_mode_of(value) matches Some(y) ==> value == mask_mode_word(y),
{
    reveal_strlit("normal");
    reveal_strlit("invert");
    assert("invert"@[0] != "normal"@[0]);
    assert("normal"@ =~= mask_mode_word(MaskMode::Normal));
    assert("invert"@ =~= mask_mode_word(MaskMode::Invert));
}

impl Join {
    /// The join that a value names.
    pub fn try_from(v: &str) -> (r: Result<Join, ()>)
        ensures
            r == (match join_of(v@) {
                Some(x) => Ok(x),
                None => Err(()),
            }),
    {
        if str_eq(v, "miter") {
            Ok(Join::Miter)
        } else if str_eq(v, "round") {
            Ok(Join::Round)
        } else if str_eq(v, "bevel") {
            Ok(Join::Bevel)
        } else {
            Err(())
        }
    }
}

impl Cap {
    /// The cap that a value names.
    pub fn try_from(v: &str) -> (r: Result<Cap, ()>)
        ensures
            r == (match cap_of(v@) {
                Some(x) => Ok(x),
                None => Err(()),
            }),
    {
        if str_eq(v, "butt") {
            Ok(Cap::Butt)
        } else if str_eq(v, "round") {
            Ok(Cap::Round)
        } else if str_eq(v, "square") {
            Ok(Cap::Square)
        } else {
            Err(())
        }
    }
}

impl TextureWrapping {
    /// The texture wrapping that a value names.
    pub fn try_from(v: &str) -> (r: Result<TextureWrapping, ()>)
        ensures
            r == (match wrapping_of(v@) {
                Some(x) => Ok(x),
                None => Err(()),
            }),
    {
        if str_eq(v, "pad") {
            Ok(TextureWrapping::Pad)
        } else if str_eq(v, "clamp") {
            Ok(TextureWrapping::Clamp)
        } else if str_eq(v, "repeat") {
            Ok(TextureWrapping::Repeat)
        } else if str_eq(v, "mirror") {
            Ok(TextureWrapping::Mirror)
        } else {
            Err(())
        }
    }
}

impl Blend {
    /// The blend mode that a value names.
    pub fn try_from(v: &str) -> (r: Result<Blend, ()>)
        ensures
            r == (match blend_of(v@) {
                Some(x) => Ok(x),
                None => Err(()),
            }),
    {
        if str_eq(v, "overlay") {
            Ok(Blend::Overlay)
        } else if str_eq(v, "add") {
            Ok(Blend::Add)
        } else if str_eq(v, "subtract") {
            Ok(Blend::Subtract)
        } else if str_eq(v, "multiply") {
            Ok(Blend::Multiply)
        } else if str_eq(v, "invert") {
            Ok(Blend::Invert)
        } else if str_eq(v, "difference") {
            Ok(Blend::Difference)
        } else if str_eq(v, "screen") {
            Ok(Blend::Screen)
        } else {
            Err(())
        }
    }
}

impl Target {
    /// The target that a value names.
    pub fn try_from(v: &str) -> (r: Result<Target, ()>)
        ensures
            r == (match target_of(v@) {
                Some(x) => Ok(x),
                None => Err(()),
            }),
    {
        if str_eq(v, "mask") {
            Ok(Target::Mask)
        } else if str_eq(v, "frame") {
            Ok(Target::Frame)
        } else {
            Err(())
        }
    }
}

impl MaskMode {
    /// The mask mode that a value names.
    pub fn try_from(v: &str) -> (r: Result<MaskMode, ()>)
        ensures
            r == (match mask_mode_of(v@) {
                Some(x) => Ok(x),
                None => Err(()),
            }),
    {
        if str_eq(v, "normal") {
            Ok(MaskMode::Normal)
        } else if str_eq(v, "invert") {
            Ok(MaskMode::Invert)
        } else {
            Err(())
        }
    }
}

} // verus!
