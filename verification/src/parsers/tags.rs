//! Tags of event data: `name=value` entries, separated by `;`, read into objects.
use vstd::prelude::*;
use crate::error::ParseError;
use crate::objects::{
    blend_of, cap_of, join_of, mask_mode_of, number_tag_label, object_models, texts,
    wrapping_of, Blend, Cap, EventObjectData, FlagTag, Join, MaskMode, NumberTag, ObjectModel,
    Target, TextureWrapping, target_of,
};
use crate::parsers::ssb::lemma_decimal_value_prefix;
use crate::text::{
    chars_of, find_char, find_char_exec, find_char_from, lemma_find_char_from,
    lemma_utf8_len_at_least_len, lemma_utf8_len_subrange, string_of, utf8_len,
};
use crate::types::{
    direction_of, numpad_of, wrap_style_of, Direction, Numpad, WrapStyle,
};
use crate::utils::functions::convert::{
    all_digits, alpha_from_str, bool_from_str, decimal_value, digit_value, is_digit, radix16,
    rgb_from_str, rgb_of,
};
use crate::utils::functions::event_iter::{
    lemma_tag_separator_range, next_tag_token, split_tag_token, TagsIterator,
};
use crate::utils::state::{mode_of, Mode};

verus! {

/// Splitting at `c` into at most `n` pieces, as `str::splitn` does.
pub open spec fn splitn(s: Seq<char>, n: nat, c: char) -> Seq<Seq<char>>
    decreases n,
{
    if n == 0 {
        Seq::empty()
    } else if n == 1 {
        seq![s]
    } else {
        match find_char(s, c) {
            None => seq![s],
            Some(i) => seq![s.take(i)] + splitn(s.skip(i + 1), (n - 1) as nat, c),
        }
    }
}

/// `s` split at `c` into at most `n` pieces (`str::splitn`).
pub fn splitn_str(s: &str, n: usize, c: char) -> (r: Vec<String>)
    requires
        n >= 1,
    ensures
        texts(r@) == splitn(s@, n as nat, c),
{
    let v = chars_of(s);
    let len = v.len();
    let mut out: Vec<String> = Vec::new();
    let mut pos: usize = 0;
    let mut k: usize = 1;
    assert(v@.skip(0) =~= v@);
    while k < n
        invariant
            1 <= k <= n,
            pos <= v@.len(),
            len == v@.len(),
            v@ == s@,
            texts(out@) + splitn(v@.skip(pos as int), (n - k + 1) as nat, c) == splitn(
                s@,
                n as nat,
                c,
            ),
        decreases n - k,
    {
        let ghost rest = v@.skip(pos as int);
        proof {
            crate::text::lemma_find_char_skip(v@, c, pos as int, 0);
            lemma_find_char_from(v@, c, pos as int);
        }
        match find_char_exec(&v, c, pos) {
            None => {
                let last = string_of(&v, pos, len);
                assert(last@ =~= rest);
                let ghost before = out@;
                out.push(last);
                assert(texts(out@) =~= texts(before) + seq![last@]);
                return out;
            },
            Some(i) => {
                let piece = string_of(&v, pos, i);
                assert(piece@ =~= rest.take(i - pos));
                assert(rest.skip(i - pos + 1) =~= v@.skip(i + 1));
                let ghost before = out@;
                out.push(piece);
                assert(texts(out@) =~= texts(before) + seq![piece@]);
                assert(texts(out@) + splitn(v@.skip(i + 1), (n - k) as nat, c) =~= texts(before)
                    + splitn(rest, (n - k + 1) as nat, c));
                pos = i + 1;
                k = k + 1;
            },
        }
    }
    let last = string_of(&v, pos, len);
    assert(last@ =~= v@.skip(pos as int));
    let ghost before = out@;
    out.push(last);
    assert(texts(out@) =~= texts(before) + seq![last@]);
    out
}

/// What `str::parse` gives for an unsigned integer type whose largest value is `max`: an
/// optional `+`, then one or more ASCII digits whose value is at most `max`.
pub open spec fn uint_of(s: Seq<char>, max: nat) -> Option<nat> {
    let d = if s.len() > 0 && s[0] == '+' {
        s.skip(1)
    } else {
        s
    };
    if d.len() > 0 && all_digits(d) && decimal_value(d) <= max {
        Some(decimal_value(d))
    } else {
        None
    }
}

/// `uint_of(s, max)`, computed.
pub fn parse_unsigned(s: &str, max: u32) -> (r: Option<u32>)
    ensures
        match r {
            Some(x) => uint_of(s@, max as nat) == Some(x as nat),
            None => uint_of(s@, max as nat) is None,
        },
{
    let v = chars_of(s);
    let ghost t = v@;
    let mut start: usize = 0;
    if start < v.len() && v[start] == '+' {
        start = 1;
    }
    let ghost d = v@.skip(start as int);
    assert(d =~= (if t.len() > 0 && t[0] == '+' {
        t.skip(1)
    } else {
        t
    }));
    if start == v.len() {
        return None;
    }
    let mut n: u64 = 0;
    let mut i = start;
    while i < v.len()
        invariant
            start <= i <= v@.len(),
            t == v@,
            t == s@,
            d == v@.skip(start as int),
            d == (if t.len() > 0 && t[0] == '+' {
                t.skip(1)
            } else {
                t
            }),
            n == decimal_value(d.take(i - start)),
            n <= max,
            all_digits(d.take(i - start)),
        decreases v.len() - i,
    {
        let c = v[i];
        assert(d[i - start] == c);
        if !(c >= '0' && c <= '9') {
            assert(!is_digit(d[i - start]));
            return None;
        }
        assert(d.take(i - start + 1).drop_last() =~= d.take(i - start));
        assert(digit_value(c) == (c as u32 - '0' as u32));
        n = n * 10 + (c as u32 - '0' as u32) as u64;
        proof {
            assert forall|j: int| 0 <= j < i - start + 1 implies is_digit(
                #[trigger] d.take(i - start + 1)[j],
            ) by {
                if j < i - start {
                    assert(d.take(i - start)[j] == d.take(i - start + 1)[j]);
                }
            }
        }
        if n > max as u64 {
            proof {
                lemma_decimal_value_prefix(d, i - start + 1);
            }
            return None;
        }
        i = i + 1;
    }
    assert(d.take(i - start) =~= d);
    Some(n as u32)
}

/// The text, or the empty text for none.
pub open spec fn or_empty(v: Option<Seq<char>>) -> Seq<char> {
    match v {
        Some(x) => x,
        None => Seq::empty(),
    }
}

/// The message `Invalid <label> '<value>'!`.
pub open spec fn invalid_text(label: Seq<char>, value: Option<Seq<char>>) -> Seq<char> {
    "Invalid "@ + label + " '"@ + or_empty(value) + "'!"@
}

/// The view of an optional string slice.
pub open spec fn opt_str(v: Option<&str>) -> Option<Seq<char>> {
    match v {
        Some(x) => Some(x@),
        None => None,
    }
}

/// The error `Invalid <label> '<value>'!`.
fn invalid_error(label: &str, value: Option<&str>) -> (e: ParseError)
    ensures
        e.spec_msg() == invalid_text(label@, opt_str(value)),
        e.spec_pos() is None,
        e.spec_source() is None,
{
    let text = invalid_text_exec(label, value);
    ParseError::new(text.as_str())
}

/// The message `Invalid <label> '<value>'!`.
fn invalid_text_exec(label: &str, value: Option<&str>) -> (text: String)
    ensures
        text@ == invalid_text(label@, opt_str(value)),
{
    let mut text = String::new();
    text.append("Invalid ");
    text.append(label);
    text.append(" '");
    match value {
        Some(v) => {
            text.append(v);
        },
        None => {},
    }
    text.append("'!");
    proof {
        reveal_strlit("");
        assert(or_empty(opt_str(value)) =~= match value {
            Some(v) => v@,
            None => ""@,
        });
    }
    assert(text@ =~= invalid_text(label@, opt_str(value)));
    text
}

/// The kinds of tags other than `mode` and `animate`.
#[derive(Debug, PartialEq, Eq, Structural, Clone, Copy)]
pub enum TagKind {
    Font,
    Texture,
    Flag(FlagTag),
    Number(NumberTag),
    Alignment,
    WrapStyle,
    Direction,
    Join,
    Cap,
    Blend,
    Target,
    MaskMode,
    Reset,
    MaskClear,
    Color,
    BorderColor,
    Alpha,
    BorderAlpha,
    TextureFill,
    Karaoke,
    KaraokeSet,
    KaraokeColor,
}

/// The kind of the tag named `name` (`None` for an unknown name, and for `mode` and
/// `animate`).
pub open spec fn tag_kind(name: Seq<char>) -> Option<TagKind> {
    if name == "font"@ {
        Some(TagKind::Font)
    } else if name == "size"@ {
        Some(TagKind::Number(NumberTag::Size))
    } else if name == "bold"@ {
        Some(TagKind::Flag(FlagTag::Bold))
    } else if name == "italic"@ {
        Some(TagKind::Flag(FlagTag::Italic))
    } else if name == "underline"@ {
        Some(TagKind::Flag(FlagTag::Underline))
    } else if name == "strikeout"@ {
        Some(TagKind::Flag(FlagTag::Strikeout))
    } else if name == "position"@ {
        Some(TagKind::Number(NumberTag::Position))
    } else if name == "alignment"@ {
        Some(TagKind::Alignment)
    } else if name == "margin"@ {
        Some(TagKind::Number(NumberTag::Margin))
    } else if name == "margin-top"@ {
        Some(TagKind::Number(NumberTag::MarginTop))
    } else if name == "margin-right"@ {
        Some(TagKind::Number(NumberTag::MarginRight))
    } else if name == "margin-bottom"@ {
        Some(TagKind::Number(NumberTag::MarginBottom))
    } else if name == "margin-left"@ {
        Some(TagKind::Number(NumberTag::MarginLeft))
    } else if name == "wrap-style"@ {
        Some(TagKind::WrapStyle)
    } else if name == "direction"@ {
        Some(TagKind::Direction)
    } else if name == "space"@ {
        Some(TagKind::Number(NumberTag::Space))
    } else if name == "space-h"@ {
        Some(TagKind::Number(NumberTag::SpaceHorizontal))
    } else if name == "space-v"@ {
        Some(TagKind::Number(NumberTag::SpaceVertical))
    } else if name == "rotate-x"@ {
        Some(TagKind::Number(NumberTag::RotateX))
    } else if name == "rotate-y"@ {
        Some(TagKind::Number(NumberTag::RotateY))
    } else if name == "rotate-z"@ {
        Some(TagKind::Number(NumberTag::RotateZ))
    } else if name == "scale"@ {
        Some(TagKind::Number(NumberTag::Scale))
    } else if name == "scale-x"@ {
        Some(TagKind::Number(NumberTag::ScaleX))
    } else if name == "scale-y"@ {
        Some(TagKind::Number(NumberTag::ScaleY))
    } else if name == "scale-z"@ {
        Some(TagKind::Number(NumberTag::ScaleZ))
    } else if name == "translate"@ {
        Some(TagKind::Number(NumberTag::Translate))
    } else if name == "translate-x"@ {
        Some(TagKind::Number(NumberTag::TranslateX))
    } else if name == "translate-y"@ {
        Some(TagKind::Number(NumberTag::TranslateY))
    } else if name == "translate-z"@ {
        Some(TagKind::Number(NumberTag::TranslateZ))
    } else if name == "shear"@ {
        Some(TagKind::Number(NumberTag::Shear))
    } else if name == "shear-x"@ {
        Some(TagKind::Number(NumberTag::ShearX))
    } else if name == "shear-y"@ {
        Some(TagKind::Number(NumberTag::ShearY))
    } else if name == "matrix"@ {
        Some(TagKind::Number(NumberTag::Matrix))
    } else if name == "reset"@ {
        Some(TagKind::Reset)
    } else if name == "border"@ {
        Some(TagKind::Number(NumberTag::Border))
    } else if name == "border-h"@ {
        Some(TagKind::Number(NumberTag::BorderHorizontal))
    } else if name == "border-v"@ {
        Some(TagKind::Number(NumberTag::BorderVertical))
    } else if name == "join"@ {
        Some(TagKind::Join)
    } else if name == "cap"@ {
        Some(TagKind::Cap)
    } else if name == "texture"@ {
        Some(TagKind::Texture)
    } else if name == "texfill"@ {
        Some(TagKind::TextureFill)
    } else if name == "color"@ {
        Some(TagKind::Color)
    } else if name == "bordercolor"@ {
        Some(TagKind::BorderColor)
    } else if name == "alpha"@ {
        Some(TagKind::Alpha)
    } else if name == "borderalpha"@ {
        Some(TagKind::BorderAlpha)
    } else if name == "blur"@ {
        Some(TagKind::Number(NumberTag::Blur))
    } else if name == "blur-h"@ {
        Some(TagKind::Number(NumberTag::BlurHorizontal))
    } else if name == "blur-v"@ {
        Some(TagKind::Number(NumberTag::BlurVertical))
    } else if name == "blend"@ {
        Some(TagKind::Blend)
    } else if name == "target"@ {
        Some(TagKind::Target)
    } else if name == "mask-mode"@ {
        Some(TagKind::MaskMode)
    } else if name == "mask-clear"@ {
        Some(TagKind::MaskClear)
    } else if name == "k"@ {
        Some(TagKind::Karaoke)
    } else if name == "kset"@ {
        Some(TagKind::KaraokeSet)
    } else if name == "kcolor"@ {
        Some(TagKind::KaraokeColor)
    } else {
        None
    }
}

/// The name of the tags of a kind (none for an alignment offset, which an `alignment` tag
/// gives).
pub open spec fn tag_kind_name(k: TagKind) -> Option<Seq<char>> {
    match k {
        TagKind::Font => Some(seq!['f', 'o', 'n', 't']),
        TagKind::Number(NumberTag::Size) => Some(seq!['s', 'i', 'z', 'e']),
        TagKind::Flag(FlagTag::Bold) => Some(seq!['b', 'o', 'l', 'd']),
        TagKind::Flag(FlagTag::Italic) => Some(seq!['i', 't', 'a', 'l', 'i', 'c']),
        TagKind::Flag(FlagTag::Underline) => Some(seq!['u', 'n', 'd', 'e', 'r', 'l', 'i', 'n', 'e']),
        TagKind::Flag(FlagTag::Strikeout) => Some(seq!['s', 't', 'r', 'i', 'k', 'e', 'o', 'u', 't']),
        TagKind::Number(NumberTag::Position) => Some(seq!['p', 'o', 's', 'i', 't', 'i', 'o', 'n']),
        TagKind::Alignment => Some(seq!['a', 'l', 'i', 'g', 'n', 'm', 'e', 'n', 't']),
        TagKind::Number(NumberTag::Margin) => Some(seq!['m', 'a', 'r', 'g', 'i', 'n']),
        TagKind::Number(NumberTag::MarginTop) => Some(seq!['m', 'a', 'r', 'g', 'i', 'n', '-', 't', 'o', 'p']),
        TagKind::Number(NumberTag::MarginRight) => Some(seq!['m', 'a', 'r', 'g', 'i', 'n', '-', 'r', 'i', 'g', 'h', 't']),
        TagKind::Number(NumberTag::MarginBottom) => Some(seq!['m', 'a', 'r', 'g', 'i', 'n', '-', 'b', 'o', 't', 't', 'o', 'm']),
        TagKind::Number(NumberTag::MarginLeft) => Some(seq!['m', 'a', 'r', 'g', 'i', 'n', '-', 'l', 'e', 'f', 't']),
        TagKind::WrapStyle => Some(seq!['w', 'r', 'a', 'p', '-', 's', 't', 'y', 'l', 'e']),
        TagKind::Direction => Some(seq!['d', 'i', 'r', 'e', 'c', 't', 'i', 'o', 'n']),
        TagKind::Number(NumberTag::Space) => Some(seq!['s', 'p', 'a', 'c', 'e']),
        TagKind::Number(NumberTag::SpaceHorizontal) => Some(seq!['s', 'p', 'a', 'c', 'e', '-', 'h']),
        TagKind::Number(NumberTag::SpaceVertical) => Some(seq!['s', 'p', 'a', 'c', 'e', '-', 'v']),
        TagKind::Number(NumberTag::RotateX) => Some(seq!['r', 'o', 't', 'a', 't', 'e', '-', 'x']),
        TagKind::Number(NumberTag::RotateY) => Some(seq!['r', 'o', 't', 'a', 't', 'e', '-', 'y']),
        TagKind::Number(NumberTag::RotateZ) => Some(seq!['r', 'o', 't', 'a', 't', 'e', '-', 'z']),
        TagKind::Number(NumberTag::Scale) => Some(seq!['s', 'c', 'a', 'l', 'e']),
        TagKind::Number(NumberTag::ScaleX) => Some(seq!['s', 'c', 'a', 'l', 'e', '-', 'x']),
        TagKind::Number(NumberTag::ScaleY) => Some(seq!['s', 'c', 'a', 'l', 'e', '-', 'y']),
        TagKind::Number(NumberTag::ScaleZ) => Some(seq!['s', 'c', 'a', 'l', 'e', '-', 'z']),
        TagKind::Number(NumberTag::Translate) => Some(seq!['t', 'r', 'a', 'n', 's', 'l', 'a', 't', 'e']),
        TagKind::Number(NumberTag::TranslateX) => Some(seq!['t', 'r', 'a', 'n', 's', 'l', 'a', 't', 'e', '-', 'x']),
        TagKind::Number(NumberTag::TranslateY) => Some(seq!['t', 'r', 'a', 'n', 's', 'l', 'a', 't', 'e', '-', 'y']),
        TagKind::Number(NumberTag::TranslateZ) => Some(seq!['t', 'r', 'a', 'n', 's', 'l', 'a', 't', 'e', '-', 'z']),
        TagKind::Number(NumberTag::Shear) => Some(seq!['s', 'h', 'e', 'a', 'r']),
        TagKind::Number(NumberTag::ShearX) => Some(seq!['s', 'h', 'e', 'a', 'r', '-', 'x']),
        TagKind::Number(NumberTag::ShearY) => Some(seq!['s', 'h', 'e', 'a', 'r', '-', 'y']),
        TagKind::Number(NumberTag::Matrix) => Some(seq!['m', 'a', 't', 'r', 'i', 'x']),
        TagKind::Reset => Some(seq!['r', 'e', 's', 'e', 't']),
        TagKind::Number(NumberTag::Border) => Some(seq!['b', 'o', 'r', 'd', 'e', 'r']),
        TagKind::Number(NumberTag::BorderHorizontal) => Some(seq!['b', 'o', 'r', 'd', 'e', 'r', '-', 'h']),
        TagKind::Number(NumberTag::BorderVertical) => Some(seq!['b', 'o', 'r', 'd', 'e', 'r', '-', 'v']),
        TagKind::Join => Some(seq!['j', 'o', 'i', 'n']),
        TagKind::Cap => Some(seq!['c', 'a', 'p']),
        TagKind::Texture => Some(seq!['t', 'e', 'x', 't', 'u', 'r', 'e']),
        TagKind::TextureFill => Some(seq!['t', 'e', 'x', 'f', 'i', 'l', 'l']),
        TagKind::Color => Some(seq!['c', 'o', 'l', 'o', 'r']),
        TagKind::BorderColor => Some(seq!['b', 'o', 'r', 'd', 'e', 'r', 'c', 'o', 'l', 'o', 'r']),
        TagKind::Alpha => Some(seq!['a', 'l', 'p', 'h', 'a']),
        TagKind::BorderAlpha => Some(seq!['b', 'o', 'r', 'd', 'e', 'r', 'a', 'l', 'p', 'h', 'a']),
        TagKind::Number(NumberTag::Blur) => Some(seq!['b', 'l', 'u', 'r']),
        TagKind::Number(NumberTag::BlurHorizontal) => Some(seq!['b', 'l', 'u', 'r', '-', 'h']),
        TagKind::Number(NumberTag::BlurVertical) => Some(seq!['b', 'l', 'u', 'r', '-', 'v']),
        TagKind::Blend => Some(seq!['b', 'l', 'e', 'n', 'd']),
        TagKind::Target => Some(seq!['t', 'a', 'r', 'g', 'e', 't']),
        TagKind::MaskMode => Some(seq!['m', 'a', 's', 'k', '-', 'm', 'o', 'd', 'e']),
        TagKind::MaskClear => Some(seq!['m', 'a', 's', 'k', '-', 'c', 'l', 'e', 'a', 'r']),
        TagKind::Karaoke => Some(seq!['k']),
        TagKind::KaraokeSet => Some(seq!['k', 's', 'e', 't']),
        TagKind::KaraokeColor => Some(seq!['k', 'c', 'o', 'l', 'o', 'r']),
        TagKind::Number(NumberTag::AlignmentOffset) => None,
    }
}

/// Each kind of tag has its own name, and no other: a name's kind has that name, and the name
/// of a kind reads back as that kind. So no two names give the same kind of tag, and a tag is
/// never read as a tag of another kind.
pub proof fn law_tag_names(name: Seq<char>, k: TagKind)
    ensures
        tag_kind(name) matches Some(x) ==> tag_kind_name(x) == Some(name),
        tag_kind_name(k) matches Some(n) ==> tag_kind(n) == Some(k),
{
    reveal_strlit("font");
    reveal_strlit("size");
    reveal_strlit("bold");
    reveal_strlit("italic");
    reveal_strlit("underline");
    reveal_strlit("strikeout");
    reveal_strlit("position");
    reveal_strlit("alignment");
    reveal_strlit("margin");
    reveal_strlit("margin-top");
    reveal_strlit("margin-right");
    reveal_strlit("margin-bottom");
    reveal_strlit("margin-left");
    reveal_strlit("wrap-style");
    reveal_strlit("direction");
    reveal_strlit("space");
    reveal_strlit("space-h");
    reveal_strlit("space-v");
    reveal_strlit("rotate-x");
    reveal_strlit("rotate-y");
    reveal_strlit("rotate-z");
    reveal_strlit("scale");
    reveal_strlit("scale-x");
    reveal_strlit("scale-y");
    reveal_strlit("scale-z");
    reveal_strlit("translate");
    reveal_strlit("translate-x");
    reveal_strlit("translate-y");
    reveal_strlit("translate-z");
    reveal_strlit("shear");
    reveal_strlit("shear-x");
    reveal_strlit("shear-y");
    reveal_strlit("matrix");
    reveal_strlit("reset");
    reveal_strlit("border");
    reveal_strlit("border-h");
    reveal_strlit("border-v");
    reveal_strlit("join");
    reveal_strlit("cap");
    reveal_strlit("texture");
    reveal_strlit("texfill");
    reveal_strlit("color");
    reveal_strlit("bordercolor");
    reveal_strlit("alpha");
    reveal_strlit("borderalpha");
    reveal_strlit("blur");
    reveal_strlit("blur-h");
    reveal_strlit("blur-v");
    reveal_strlit("blend");
    reveal_strlit("target");
    reveal_strlit("mask-mode");
    reveal_strlit("mask-clear");
    reveal_strlit("k");
    reveal_strlit("kset");
    reveal_strlit("kcolor");
    assert("size"@[0] != "font"@[0]);
    assert("bold"@[0] != "font"@[0]);
    assert("bold"@[0] != "size"@[0]);
    assert("strikeout"@[0] != "underline"@[0]);
    assert("alignment"@[0] != "underline"@[0]);
    assert("alignment"@[0] != "strikeout"@[0]);
    assert("margin"@[0] != "italic"@[0]);
    assert("wrap-style"@[0] != "margin-top"@[0]);
    assert("direction"@[0] != "underline"@[0]);
    assert("direction"@[0] != "strikeout"@[0]);
    assert("direction"@[0] != "alignment"@[0]);
    assert("space-v"@[6] != "space-h"@[6]);
    assert("rotate-x"@[0] != "position"@[0]);
    assert("rotate-y"@[0] != "position"@[0]);
    assert("rotate-y"@[7] != "rotate-x"@[7]);
    assert("rotate-z"@[0] != "position"@[0]);
    assert("rotate-z"@[7] != "rotate-x"@[7]);
    assert("rotate-z"@[7] != "rotate-y"@[7]);
    assert("scale"@[1] != "space"@[1]);
    assert("scale-x"@[1] != "space-h"@[1]);
    assert("scale-x"@[1] != "space-v"@[1]);
    assert("scale-y"@[1] != "space-h"@[1]);
    assert("scale-y"@[1] != "space-v"@[1]);
    assert("scale-y"@[6] != "scale-x"@[6]);
    assert("scale-z"@[1] != "space-h"@[1]);
    assert("scale-z"@[1] != "space-v"@[1]);
    assert("scale-z"@[6] != "scale-x"@[6]);
    assert("scale-z"@[6] != "scale-y"@[6]);
    assert("translate"@[0] != "underline"@[0]);
    assert("translate"@[0] != "strikeout"@[0]);
    assert("translate"@[0] != "alignment"@[0]);
    assert("translate"@[0] != "direction"@[0]);
    assert("translate-x"@[0] != "margin-left"@[0]);
    assert("translate-y"@[0] != "margin-left"@[0]);
    assert("translate-y"@[10] != "translate-x"@[10]);
    assert("translate-z"@[0] != "margin-left"@[0]);
    assert("translate-z"@[10] != "translate-x"@[10]);
    assert("translate-z"@[10] != "translate-y"@[10]);
    assert("shear"@[1] != "space"@[1]);
    assert("shear"@[1] != "scale"@[1]);
    assert("shear-x"@[1] != "space-h"@[1]);
    assert("shear-x"@[1] != "space-v"@[1]);
    assert("shear-x"@[1] != "scale-x"@[1]);
    assert("shear-x"@[1] != "scale-y"@[1]);
    assert("shear-x"@[1] != "scale-z"@[1]);
    assert("shear-y"@[1] != "space-h"@[1]);
    assert("shear-y"@[1] != "space-v"@[1]);
    assert("shear-y"@[1] != "scale-x"@[1]);
    assert("shear-y"@[1] != "scale-y"@[1]);
    assert("shear-y"@[1] != "scale-z"@[1]);
    assert("shear-y"@[6] != "shear-x"@[6]);
    assert("matrix"@[0] != "italic"@[0]);
    assert("matrix"@[2] != "margin"@[2]);
    assert("reset"@[0] != "space"@[0]);
    assert("reset"@[0] != "scale"@[0]);
    assert("reset"@[0] != "shear"@[0]);
    assert("border"@[0] != "italic"@[0]);
    assert("border"@[0] != "margin"@[0]);
    assert("border"@[0] != "matrix"@[0]);
    assert("border-h"@[0] != "position"@[0]);
    assert("border-h"@[0] != "rotate-x"@[0]);
    assert("border-h"@[0] != "rotate-y"@[0]);
    assert("border-h"@[0] != "rotate-z"@[0]);
    assert("border-v"@[0] != "position"@[0]);
    assert("border-v"@[0] != "rotate-x"@[0]);
    assert("border-v"@[0] != "rotate-y"@[0]);
    assert("border-v"@[0] != "rotate-z"@[0]);
    assert("border-v"@[7] != "border-h"@[7]);
    assert("join"@[0] != "font"@[0]);
    assert("join"@[0] != "size"@[0]);
    assert("join"@[0] != "bold"@[0]);
    assert("texture"@[0] != "space-h"@[0]);
    assert("texture"@[0] != "space-v"@[0]);
    assert("texture"@[0] != "scale-x"@[0]);
    assert("texture"@[0] != "scale-y"@[0]);
    assert("texture"@[0] != "scale-z"@[0]);
    assert("texture"@[0] != "shear-x"@[0]);
    assert("texture"@[0] != "shear-y"@[0]);
    assert("texfill"@[0] != "space-h"@[0]);
    assert("texfill"@[0] != "space-v"@[0]);
    assert("texfill"@[0] != "scale-x"@[0]);
    assert("texfill"@[0] != "scale-y"@[0]);
    assert("texfill"@[0] != "scale-z"@[0]);
    assert("texfill"@[0] != "shear-x"@[0]);
    assert("texfill"@[0] != "shear-y"@[0]);
    assert("texfill"@[3] != "texture"@[3]);
    assert("color"@[0] != "space"@[0]);
    assert("color"@[0] != "scale"@[0]);
    assert("color"@[0] != "shear"@[0]);
    assert("color"@[0] != "reset"@[0]);
    assert("bordercolor"@[0] != "margin-left"@[0]);
    assert("bordercolor"@[0] != "translate-x"@[0]);
    assert("bordercolor"@[0] != "translate-y"@[0]);
    assert("bordercolor"@[0] != "translate-z"@[0]);
    assert("alpha"@[0] != "space"@[0]);
    assert("alpha"@[0] != "scale"@[0]);
    assert("alpha"@[0] != "shear"@[0]);
    assert("alpha"@[0] != "reset"@[0]);
    assert("alpha"@[0] != "color"@[0]);
    assert("borderalpha"@[0] != "margin-left"@[0]);
    assert("borderalpha"@[0] != "translate-x"@[0]);
    assert("borderalpha"@[0] != "translate-y"@[0]);
    assert("borderalpha"@[0] != "translate-z"@[0]);
    assert("borderalpha"@[6] != "bordercolor"@[6]);
    assert("blur"@[0] != "font"@[0]);
    assert("blur"@[0] != "size"@[0]);
    assert("blur"@[1] != "bold"@[1]);
    assert("blur"@[0] != "join"@[0]);
    assert("blur-h"@[0] != "italic"@[0]);
    assert("blur-h"@[0] != "margin"@[0]);
    assert("blur-h"@[0] != "matrix"@[0]);
    assert("blur-h"@[1] != "border"@[1]);
    assert("blur-v"@[0] != "italic"@[0]);
    assert("blur-v"@[0] != "margin"@[0]);
    assert("blur-v"@[0] != "matrix"@[0]);
    assert("blur-v"@[1] != "border"@[1]);
    assert("blur-v"@[5] != "blur-h"@[5]);
    assert("blend"@[0] != "space"@[0]);
    assert("blend"@[0] != "scale"@[0]);
    assert("blend"@[0] != "shear"@[0]);
    assert("blend"@[0] != "reset"@[0]);
    assert("blend"@[0] != "color"@[0]);
    assert("blend"@[0] != "alpha"@[0]);
    assert("target"@[0] != "italic"@[0]);
    assert("target"@[0] != "margin"@[0]);
    assert("target"@[0] != "matrix"@[0]);
    assert("target"@[0] != "border"@[0]);
    assert("target"@[0] != "blur-h"@[0]);
    assert("target"@[0] != "blur-v"@[0]);
    assert("mask-mode"@[0] != "underline"@[0]);
    assert("mask-mode"@[0] != "strikeout"@[0]);
    assert("mask-mode"@[0] != "alignment"@[0]);
    assert("mask-mode"@[0] != "direction"@[0]);
    assert("mask-mode"@[0] != "translate"@[0]);
    assert("mask-clear"@[2] != "margin-top"@[2]);
    assert("mask-clear"@[0] != "wrap-style"@[0]);
    assert("kset"@[0] != "font"@[0]);
    assert("kset"@[0] != "size"@[0]);
    assert("kset"@[0] != "bold"@[0]);
    assert("kset"@[0] != "join"@[0]);
    assert("kset"@[0] != "blur"@[0]);
    assert("kcolor"@[0] != "italic"@[0]);
    assert("kcolor"@[0] != "margin"@[0]);
    assert("kcolor"@[0] != "matrix"@[0]);
    assert("kcolor"@[0] != "border"@[0]);
    assert("kcolor"@[0] != "blur-h"@[0]);
    assert("kcolor"@[0] != "blur-v"@[0]);
    assert("kcolor"@[0] != "target"@[0]);
    assert("font"@ =~= tag_kind_name(TagKind::Font)->0);
    assert("size"@ =~= tag_kind_name(TagKind::Number(NumberTag::Size))->0);
    assert("bold"@ =~= tag_kind_name(TagKind::Flag(FlagTag::Bold))->0);
    assert("italic"@ =~= tag_kind_name(TagKind::Flag(FlagTag::Italic))->0);
    assert("underline"@ =~= tag_kind_name(TagKind::Flag(FlagTag::Underline))->0);
    assert("strikeout"@ =~= tag_kind_name(TagKind::Flag(FlagTag::Strikeout))->0);
    assert("position"@ =~= tag_kind_name(TagKind::Number(NumberTag::Position))->0);
    assert("alignment"@ =~= tag_kind_name(TagKind::Alignment)->0);
    assert("margin"@ =~= tag_kind_name(TagKind::Number(NumberTag::Margin))->0);
    assert("margin-top"@ =~= tag_kind_name(TagKind::Number(NumberTag::MarginTop))->0);
    assert("margin-right"@ =~= tag_kind_name(TagKind::Number(NumberTag::MarginRight))->0);
    assert("margin-bottom"@ =~= tag_kind_name(TagKind::Number(NumberTag::MarginBottom))->0);
    assert("margin-left"@ =~= tag_kind_name(TagKind::Number(NumberTag::MarginLeft))->0);
    assert("wrap-style"@ =~= tag_kind_name(TagKind::WrapStyle)->0);
    assert("direction"@ =~= tag_kind_name(TagKind::Direction)->0);
    assert("space"@ =~= tag_kind_name(TagKind::Number(NumberTag::Space))->0);
    assert("space-h"@ =~= tag_kind_name(TagKind::Number(NumberTag::SpaceHorizontal))->0);
    assert("space-v"@ =~= tag_kind_name(TagKind::Number(NumberTag::SpaceVertical))->0);
    assert("rotate-x"@ =~= tag_kind_name(TagKind::Number(NumberTag::RotateX))->0);
    assert("rotate-y"@ =~= tag_kind_name(TagKind::Number(NumberTag::RotateY))->0);
    assert("rotate-z"@ =~= tag_kind_name(TagKind::Number(NumberTag::RotateZ))->0);
    assert("scale"@ =~= tag_kind_name(TagKind::Number(NumberTag::Scale))->0);
    assert("scale-x"@ =~= tag_kind_name(TagKind::Number(NumberTag::ScaleX))->0);
    assert("scale-y"@ =~= tag_kind_name(TagKind::Number(NumberTag::ScaleY))->0);
    assert("scale-z"@ =~= tag_kind_name(TagKind::Number(NumberTag::ScaleZ))->0);
    assert("translate"@ =~= tag_kind_name(TagKind::Number(NumberTag::Translate))->0);
    assert("translate-x"@ =~= tag_kind_name(TagKind::Number(NumberTag::TranslateX))->0);
    assert("translate-y"@ =~= tag_kind_name(TagKind::Number(NumberTag::TranslateY))->0);
    assert("translate-z"@ =~= tag_kind_name(TagKind::Number(NumberTag::TranslateZ))->0);
    assert("shear"@ =~= tag_kind_name(TagKind::Number(NumberTag::Shear))->0);
    assert("shear-x"@ =~= tag_kind_name(TagKind::Number(NumberTag::ShearX))->0);
    assert("shear-y"@ =~= tag_kind_name(TagKind::Number(NumberTag::ShearY))->0);
    assert("matrix"@ =~= tag_kind_name(TagKind::Number(NumberTag::Matrix))->0);
    assert("reset"@ =~= tag_kind_name(TagKind::Reset)->0);
    assert("border"@ =~= tag_kind_name(TagKind::Number(NumberTag::Border))->0);
    assert("border-h"@ =~= tag_kind_name(TagKind::Number(NumberTag::BorderHorizontal))->0);
    assert("border-v"@ =~= tag_kind_name(TagKind::Number(NumberTag::BorderVertical))->0);
    assert("join"@ =~= tag_kind_name(TagKind::Join)->0);
    assert("cap"@ =~= tag_kind_name(TagKind::Cap)->0);
    assert("texture"@ =~= tag_kind_name(TagKind::Texture)->0);
    assert("texfill"@ =~= tag_kind_name(TagKind::TextureFill)->0);
    assert("color"@ =~= tag_kind_name(TagKind::Color)->0);
    assert("bordercolor"@ =~= tag_kind_name(TagKind::BorderColor)->0);
    assert("alpha"@ =~= tag_kind_name(TagKind::Alpha)->0);
    assert("borderalpha"@ =~= tag_kind_name(TagKind::BorderAlpha)->0);
    assert("blur"@ =~= tag_kind_name(TagKind::Number(NumberTag::Blur))->0);
    assert("blur-h"@ =~= tag_kind_name(TagKind::Number(NumberTag::BlurHorizontal))->0);
    assert("blur-v"@ =~= tag_kind_name(TagKind::Number(NumberTag::BlurVertical))->0);
    assert("blend"@ =~= tag_kind_name(TagKind::Blend)->0);
    assert("target"@ =~= tag_kind_name(TagKind::Target)->0);
    assert("mask-mode"@ =~= tag_kind_name(TagKind::MaskMode)->0);
    assert("mask-clear"@ =~= tag_kind_name(TagKind::MaskClear)->0);
    assert("k"@ =~= tag_kind_name(TagKind::Karaoke)->0);
    assert("kset"@ =~= tag_kind_name(TagKind::KaraokeSet)->0);
    assert("kcolor"@ =~= tag_kind_name(TagKind::KaraokeColor)->0);
}

/// `tag_kind(name)`, computed.
fn tag_kind_exec(name: &str) -> (r: Option<TagKind>)
    ensures
        r == tag_kind(name@),
{
    if crate::text::str_eq(name, "font") {
        Some(TagKind::Font)
    } else if crate::text::str_eq(name, "size") {
        Some(TagKind::Number(NumberTag::Size))
    } else if crate::text::str_eq(name, "bold") {
        Some(TagKind::Flag(FlagTag::Bold))
    } else if crate::text::str_eq(name, "italic") {
        Some(TagKind::Flag(FlagTag::Italic))
    } else if crate::text::str_eq(name, "underline") {
        Some(TagKind::Flag(FlagTag::Underline))
    } else if crate::text::str_eq(name, "strikeout") {
        Some(TagKind::Flag(FlagTag::Strikeout))
    } else if crate::text::str_eq(name, "position") {
        Some(TagKind::Number(NumberTag::Position))
    } else if crate::text::str_eq(name, "alignment") {
        Some(TagKind::Alignment)
    } else if crate::text::str_eq(name, "margin") {
        Some(TagKind::Number(NumberTag::Margin))
    } else if crate::text::str_eq(name, "margin-top") {
        Some(TagKind::Number(NumberTag::MarginTop))
    } else if crate::text::str_eq(name, "margin-right") {
        Some(TagKind::Number(NumberTag::MarginRight))
    } else if crate::text::str_eq(name, "margin-bottom") {
        Some(TagKind::Number(NumberTag::MarginBottom))
    } else if crate::text::str_eq(name, "margin-left") {
        Some(TagKind::Number(NumberTag::MarginLeft))
    } else if crate::text::str_eq(name, "wrap-style") {
        Some(TagKind::WrapStyle)
    } else if crate::text::str_eq(name, "direction") {
        Some(TagKind::Direction)
    } else if crate::text::str_eq(name, "space") {
        Some(TagKind::Number(NumberTag::Space))
    } else if crate::text::str_eq(name, "space-h") {
        Some(TagKind::Number(NumberTag::SpaceHorizontal))
    } else if crate::text::str_eq(name, "space-v") {
        Some(TagKind::Number(NumberTag::SpaceVertical))
    } else if crate::text::str_eq(name, "rotate-x") {
        Some(TagKind::Number(NumberTag::RotateX))
    } else if crate::text::str_eq(name, "rotate-y") {
        Some(TagKind::Number(NumberTag::RotateY))
    } else if crate::text::str_eq(name, "rotate-z") {
        Some(TagKind::Number(NumberTag::RotateZ))
    } else if crate::text::str_eq(name, "scale") {
        Some(TagKind::Number(NumberTag::Scale))
    } else if crate::text::str_eq(name, "scale-x") {
        Some(TagKind::Number(NumberTag::ScaleX))
    } else if crate::text::str_eq(name, "scale-y") {
        Some(TagKind::Number(NumberTag::ScaleY))
    } else if crate::text::str_eq(name, "scale-z") {
        Some(TagKind::Number(NumberTag::ScaleZ))
    } else if crate::text::str_eq(name, "translate") {
        Some(TagKind::Number(NumberTag::Translate))
    } else if crate::text::str_eq(name, "translate-x") {
        Some(TagKind::Number(NumberTag::TranslateX))
    } else if crate::text::str_eq(name, "translate-y") {
        Some(TagKind::Number(NumberTag::TranslateY))
    } else if crate::text::str_eq(name, "translate-z") {
        Some(TagKind::Number(NumberTag::TranslateZ))
    } else if crate::text::str_eq(name, "shear") {
        Some(TagKind::Number(NumberTag::Shear))
    } else if crate::text::str_eq(name, "shear-x") {
        Some(TagKind::Number(NumberTag::ShearX))
    } else if crate::text::str_eq(name, "shear-y") {
        Some(TagKind::Number(NumberTag::ShearY))
    } else if crate::text::str_eq(name, "matrix") {
        Some(TagKind::Number(NumberTag::Matrix))
    } else if crate::text::str_eq(name, "reset") {
        Some(TagKind::Reset)
    } else if crate::text::str_eq(name, "border") {
        Some(TagKind::Number(NumberTag::Border))
    } else if crate::text::str_eq(name, "border-h") {
        Some(TagKind::Number(NumberTag::BorderHorizontal))
    } else if crate::text::str_eq(name, "border-v") {
        Some(TagKind::Number(NumberTag::BorderVertical))
    } else if crate::text::str_eq(name, "join") {
        Some(TagKind::Join)
    } else if crate::text::str_eq(name, "cap") {
        Some(TagKind::Cap)
    } else if crate::text::str_eq(name, "texture") {
        Some(TagKind::Texture)
    } else if crate::text::str_eq(name, "texfill") {
        Some(TagKind::TextureFill)
    } else if crate::text::str_eq(name, "color") {
        Some(TagKind::Color)
    } else if crate::text::str_eq(name, "bordercolor") {
        Some(TagKind::BorderColor)
    } else if crate::text::str_eq(name, "alpha") {
        Some(TagKind::Alpha)
    } else if crate::text::str_eq(name, "borderalpha") {
        Some(TagKind::BorderAlpha)
    } else if crate::text::str_eq(name, "blur") {
        Some(TagKind::Number(NumberTag::Blur))
    } else if crate::text::str_eq(name, "blur-h") {
        Some(TagKind::Number(NumberTag::BlurHorizontal))
    } else if crate::text::str_eq(name, "blur-v") {
        Some(TagKind::Number(NumberTag::BlurVertical))
    } else if crate::text::str_eq(name, "blend") {
        Some(TagKind::Blend)
    } else if crate::text::str_eq(name, "target") {
        Some(TagKind::Target)
    } else if crate::text::str_eq(name, "mask-mode") {
        Some(TagKind::MaskMode)
    } else if crate::text::str_eq(name, "mask-clear") {
        Some(TagKind::MaskClear)
    } else if crate::text::str_eq(name, "k") {
        Some(TagKind::Karaoke)
    } else if crate::text::str_eq(name, "kset") {
        Some(TagKind::KaraokeSet)
    } else if crate::text::str_eq(name, "kcolor") {
        Some(TagKind::KaraokeColor)
    } else {
        None
    }
}

/// The numbers of a number tag's value, as texts: `None` where the value has too few parts.
///
/// A position has two or three parts (the third is `0` where it is missing); scale and
/// translate three; shear and an alignment offset two; matrix sixteen; margin four, or one
/// value for all; space, border and blur two, or one value for both; the others one.
pub open spec fn tag_numbers(tag: NumberTag, v: Seq<char>) -> Option<Seq<Seq<char>>> {
    match tag {
        NumberTag::Position => {
            let p = splitn(v, 3, ',');
            if p.len() < 2 {
                None
            } else if p.len() == 2 {
                Some(p.push("0"@))
            } else {
                Some(p)
            }
        },
        NumberTag::AlignmentOffset | NumberTag::Shear => {
            let p = splitn(v, 2, ',');
            if p.len() == 2 {
                Some(p)
            } else {
                None
            }
        },
        NumberTag::Scale | NumberTag::Translate => {
            let p = splitn(v, 3, ',');
            if p.len() == 3 {
                Some(p)
            } else {
                None
            }
        },
        NumberTag::Matrix => {
            let p = splitn(v, 16, ',');
            if p.len() == 16 {
                Some(p)
            } else {
                None
            }
        },
        NumberTag::Margin => {
            let p = splitn(v, 4, ',');
            if p.len() == 4 {
                Some(p)
            } else {
                Some(seq![v, v, v, v])
            }
        },
        NumberTag::Space | NumberTag::Border | NumberTag::Blur => {
            let p = splitn(v, 2, ',');
            if p.len() == 2 {
                Some(p)
            } else {
                Some(seq![v, v])
            }
        },
        _ => Some(seq![v]),
    }
}

/// `tag_numbers(tag, v)`, computed.
fn tag_numbers_exec(tag: NumberTag, v: &str) -> (r: Option<Vec<String>>)
    ensures
        match tag_numbers(tag, v@) {
            Some(ns) => r matches Some(x) && texts(x@) == ns,
            None => r is None,
        },
{
    match tag {
        NumberTag::Position => {
            let mut p = splitn_str(v, 3, ',');
            if p.len() < 2 {
                None
            } else if p.len() == 2 {
                let zero = "0".to_owned();
                let ghost before = p@;
                p.push(zero);
                proof {
                    reveal_strlit("0");
                }
                assert(texts(p@) =~= texts(before).push("0"@));
                Some(p)
            } else {
                Some(p)
            }
        },
        NumberTag::AlignmentOffset | NumberTag::Shear => {
            let p = splitn_str(v, 2, ',');
            if p.len() == 2 {
                Some(p)
            } else {
                None
            }
        },
        NumberTag::Scale | NumberTag::Translate => {
            let p = splitn_str(v, 3, ',');
            if p.len() == 3 {
                Some(p)
            } else {
                None
            }
        },
        NumberTag::Matrix => {
            let p = splitn_str(v, 16, ',');
            if p.len() == 16 {
                Some(p)
            } else {
                None
            }
        },
        NumberTag::Margin => {
            let p = splitn_str(v, 4, ',');
            if p.len() == 4 {
                Some(p)
            } else {
                let all = vec![v.to_owned(), v.to_owned(), v.to_owned(), v.to_owned()];
                assert(texts(all@) =~= seq![v@, v@, v@, v@]);
                Some(all)
            }
        },
        NumberTag::Space | NumberTag::Border | NumberTag::Blur => {
            let p = splitn_str(v, 2, ',');
            if p.len() == 2 {
                Some(p)
            } else {
                let both = vec![v.to_owned(), v.to_owned()];
                assert(texts(both@) =~= seq![v@, v@]);
                Some(both)
            }
        },
        _ => {
            let one = vec![v.to_owned()];
            assert(texts(one@) =~= seq![v@]);
            Some(one)
        },
    }
}

/// The value of a boolean tag: `y` or `n`.
pub open spec fn bool_of(v: Seq<char>) -> Option<bool> {
    if v == seq!['y'] {
        Some(true)
    } else if v == seq!['n'] {
        Some(false)
    } else {
        None
    }
}

/// A color `RRGGBB` in hexadecimal (see `rgb_from_str`).
pub open spec fn rgb_text(s: Seq<char>) -> Option<[u8; 3]> {
    if 1 <= utf8_len(s) <= 6 && radix16(s) is Some {
        Some(rgb_of(radix16(s)->0))
    } else {
        None
    }
}

/// An alpha `AA` in hexadecimal (see `alpha_from_str`).
pub open spec fn alpha_text(s: Seq<char>) -> Option<u8> {
    if 1 <= utf8_len(s) <= 2 && radix16(s) is Some {
        Some(radix16(s)->0 as u8)
    } else {
        None
    }
}

/// One to five colors separated by `,`, each as `rgb_text` reads it.
pub open spec fn colors_of(v: Seq<char>) -> Option<Seq<[u8; 3]>> {
    let p = splitn(v, 5, ',');
    if forall|i: int| 0 <= i < p.len() ==> (#[trigger] rgb_text(p[i])) is Some {
        Some(Seq::new(p.len(), |i: int| rgb_text(p[i])->0))
    } else {
        None
    }
}

/// One to five alphas separated by `,`, each as `alpha_text` reads it.
pub open spec fn alphas_of(v: Seq<char>) -> Option<Seq<u8>> {
    let p = splitn(v, 5, ',');
    if forall|i: int| 0 <= i < p.len() ==> (#[trigger] alpha_text(p[i])) is Some {
        Some(Seq::new(p.len(), |i: int| alpha_text(p[i])->0))
    } else {
        None
    }
}

/// `colors_of(v)`, computed.
fn colors_exec(v: &str) -> (r: Option<Vec<[u8; 3]>>)
    ensures
        match colors_of(v@) {
            Some(c) => r matches Some(x) && x@ == c,
            None => r is None,
        },
{
    let p = splitn_str(v, 5, ',');
    let ghost ps = texts(p@);
    let mut out: Vec<[u8; 3]> = Vec::new();
    let mut i: usize = 0;
    while i < p.len()
        invariant
            i <= p@.len(),
            ps == texts(p@),
            ps == splitn(v@, 5, ','),
            out@.len() == i,
            forall|j: int| 0 <= j < i ==> rgb_text(#[trigger] ps[j]) == Some(out@[j]),
        decreases p.len() - i,
    {
        assert(ps[i as int] == p@[i as int]@);
        match rgb_from_str(p[i].as_str()) {
            Ok(c) => {
                out.push(c);
            },
            Err(()) => {
                assert(rgb_text(ps[i as int]) is None);
                return None;
            },
        }
        i = i + 1;
    }
    assert(out@ =~= Seq::new(ps.len(), |j: int| rgb_text(ps[j])->0));
    Some(out)
}

/// `alphas_of(v)`, computed.
fn alphas_exec(v: &str) -> (r: Option<Vec<u8>>)
    ensures
        match alphas_of(v@) {
            Some(a) => r matches Some(x) && x@ == a,
            None => r is None,
        },
{
    let p = splitn_str(v, 5, ',');
    let ghost ps = texts(p@);
    let mut out: Vec<u8> = Vec::new();
    let mut i: usize = 0;
    while i < p.len()
        invariant
            i <= p@.len(),
            ps == texts(p@),
            ps == splitn(v@, 5, ','),
            out@.len() == i,
            forall|j: int| 0 <= j < i ==> alpha_text(#[trigger] ps[j]) == Some(out@[j]),
        decreases p.len() - i,
    {
        assert(ps[i as int] == p@[i as int]@);
        match alpha_from_str(p[i].as_str()) {
            Ok(a) => {
                out.push(a);
            },
            Err(()) => {
                assert(alpha_text(ps[i as int]) is None);
                return None;
            },
        }
        i = i + 1;
    }
    assert(out@ =~= Seq::new(ps.len(), |j: int| alpha_text(ps[j])->0));
    Some(out)
}

/// What a tag of kind `k` with `value` gives: its objects, or the error message.
pub open spec fn kind_tag(k: TagKind, value: Option<Seq<char>>) -> Result<Seq<ObjectModel>, Seq<char>> {
    match k {
        TagKind::Font => match value {
            Some(v) => Ok(seq![ObjectModel::Font(v)]),
            None => Err(invalid_text("font"@, value)),
        },
        TagKind::Texture => Ok(seq![ObjectModel::Texture(or_empty(value))]),
        TagKind::Flag(f) => match value {
            Some(v) => match bool_of(v) {
                Some(b) => Ok(seq![ObjectModel::Flag(f, b)]),
                None => Err(invalid_text(flag_label(f), value)),
            },
            None => Err(invalid_text(flag_label(f), value)),
        },
        TagKind::Number(t) => match value {
            Some(v) => match tag_numbers(t, v) {
                Some(ns) => Ok(seq![ObjectModel::Numbers(t, v, ns)]),
                None => Err(invalid_text(number_tag_label(t), value)),
            },
            None => Err(invalid_text(number_tag_label(t), value)),
        },
        TagKind::Alignment => match value {
            Some(v) => if find_char(v, ',') is Some {
                match tag_numbers(NumberTag::AlignmentOffset, v) {
                    Some(ns) => Ok(seq![ObjectModel::Numbers(NumberTag::AlignmentOffset, v, ns)]),
                    None => Err(invalid_text("alignment"@, value)),
                }
            } else {
                match uint_of(v, 255) {
                    Some(n) => match numpad_of(n as u8) {
                        Some(p) => Ok(seq![ObjectModel::Alignment(p)]),
                        None => Err(invalid_text("alignment"@, value)),
                    },
                    None => Err(invalid_text("alignment"@, value)),
                }
            },
            None => Err(invalid_text("alignment"@, value)),
        },
        TagKind::WrapStyle => match value {
            Some(v) => match wrap_style_of(v) {
                Some(w) => Ok(seq![ObjectModel::WrapStyle(w)]),
                None => Err(invalid_text("wrap style"@, value)),
            },
            None => Err(invalid_text("wrap style"@, value)),
        },
        TagKind::Direction => match value {
            Some(v) => match direction_of(v) {
                Some(d) => Ok(seq![ObjectModel::Direction(d)]),
                None => Err(invalid_text("direction"@, value)),
            },
            None => Err(invalid_text("direction"@, value)),
        },
        TagKind::Join => match value {
            Some(v) => match join_of(v) {
                Some(j) => Ok(seq![ObjectModel::Join(j)]),
                None => Err(invalid_text("join"@, value)),
            },
            None => Err(invalid_text("join"@, value)),
        },
        TagKind::Cap => match value {
            Some(v) => match cap_of(v) {
                Some(c) => Ok(seq![ObjectModel::Cap(c)]),
                None => Err(invalid_text("cap"@, value)),
            },
            None => Err(invalid_text("cap"@, value)),
        },
        TagKind::Blend => match value {
            Some(v) => match blend_of(v) {
                Some(b) => Ok(seq![ObjectModel::Blend(b)]),
                None => Err(invalid_text("blend"@, value)),
            },
            None => Err(invalid_text("blend"@, value)),
        },
        TagKind::Target => match value {
            Some(v) => match target_of(v) {
                Some(t) => Ok(seq![ObjectModel::Target(t)]),
                None => Err(invalid_text("target"@, value)),
            },
            None => Err(invalid_text("target"@, value)),
        },
        TagKind::MaskMode => match value {
            Some(v) => match mask_mode_of(v) {
                Some(m) => Ok(seq![ObjectModel::MaskMode(m)]),
                None => Err(invalid_text("mask mode"@, value)),
            },
            None => Err(invalid_text("mask mode"@, value)),
        },
        TagKind::Reset => match value {
            None => Ok(seq![ObjectModel::Reset]),
            Some(_) => Err("Reset must have no value!"@),
        },
        TagKind::MaskClear => match value {
            None => Ok(seq![ObjectModel::MaskClear]),
            Some(_) => Err("Mask clear must have no value!"@),
        },
        TagKind::Color => match value {
            Some(v) => match colors_of(v) {
                Some(c) => Ok(seq![ObjectModel::Color(c)]),
                None => Err(invalid_text("color"@, value)),
            },
            None => Err(invalid_text("color"@, value)),
        },
        TagKind::BorderColor => match value {
            Some(v) => match colors_of(v) {
                Some(c) => Ok(seq![ObjectModel::BorderColor(c)]),
                None => Err(invalid_text("border color"@, value)),
            },
            None => Err(invalid_text("border color"@, value)),
        },
        TagKind::Alpha => match value {
            Some(v) => match alphas_of(v) {
                Some(a) => Ok(seq![ObjectModel::Alpha(a)]),
                None => Err(invalid_text("alpha"@, value)),
            },
            None => Err(invalid_text("alpha"@, value)),
        },
        TagKind::BorderAlpha => match value {
            Some(v) => match alphas_of(v) {
                Some(a) => Ok(seq![ObjectModel::BorderAlpha(a)]),
                None => Err(invalid_text("border coloalphar"@, value)),
            },
            None => Err(invalid_text("border coloalphar"@, value)),
        },
        TagKind::TextureFill => match value {
            Some(v) => {
                let p = splitn(v, 5, ',');
                if p.len() == 5 {
                    match wrapping_of(p[4]) {
                        Some(w) => Ok(seq![ObjectModel::TextureFill(v, p.take(4), w)]),
                        None => Err(invalid_text("texture filling"@, value)),
                    }
                } else {
                    Err(invalid_text("texture filling"@, value))
                }
            },
            None => Err(invalid_text("texture filling"@, value)),
        },
        TagKind::Karaoke => match value {
            Some(v) => match uint_of(v, u32::MAX as nat) {
                Some(n) => Ok(seq![ObjectModel::Karaoke(n as u32)]),
                None => Err(invalid_text("karaoke"@, value)),
            },
            None => Err(invalid_text("karaoke"@, value)),
        },
        TagKind::KaraokeSet => match value {
            Some(v) => match uint_of(v, u32::MAX as nat) {
                Some(n) => Ok(seq![ObjectModel::KaraokeSet(n as u32)]),
                None => Err(invalid_text("karaoke set"@, value)),
            },
            None => Err(invalid_text("karaoke set"@, value)),
        },
        TagKind::KaraokeColor => match value {
            Some(v) => match rgb_text(v) {
                Some(c) => Ok(seq![ObjectModel::KaraokeColor(c)]),
                None => Err(invalid_text("karaoke color"@, value)),
            },
            None => Err(invalid_text("karaoke color"@, value)),
        },
    }
}

/// The kind of tag that gives an object (none for animations and geometries).
pub open spec fn object_kind(o: ObjectModel) -> Option<TagKind> {
    match o {
        ObjectModel::Font(_) => Some(TagKind::Font),
        ObjectModel::Texture(_) => Some(TagKind::Texture),
        ObjectModel::Flag(f, _) => Some(TagKind::Flag(f)),
        ObjectModel::Numbers(t, _, _) => if t == NumberTag::AlignmentOffset {
            Some(TagKind::Alignment)
        } else {
            Some(TagKind::Number(t))
        },
        ObjectModel::TextureFill(_, _, _) => Some(TagKind::TextureFill),
        ObjectModel::Alignment(_) => Some(TagKind::Alignment),
        ObjectModel::WrapStyle(_) => Some(TagKind::WrapStyle),
        ObjectModel::Direction(_) => Some(TagKind::Direction),
        ObjectModel::Join(_) => Some(TagKind::Join),
        ObjectModel::Cap(_) => Some(TagKind::Cap),
        ObjectModel::Blend(_) => Some(TagKind::Blend),
        ObjectModel::Target(_) => Some(TagKind::Target),
        ObjectModel::MaskMode(_) => Some(TagKind::MaskMode),
        ObjectModel::Reset => Some(TagKind::Reset),
        ObjectModel::MaskClear => Some(TagKind::MaskClear),
        ObjectModel::Color(_) => Some(TagKind::Color),
        ObjectModel::BorderColor(_) => Some(TagKind::BorderColor),
        ObjectModel::Alpha(_) => Some(TagKind::Alpha),
        ObjectModel::BorderAlpha(_) => Some(TagKind::BorderAlpha),
        ObjectModel::Karaoke(_) => Some(TagKind::Karaoke),
        ObjectModel::KaraokeSet(_) => Some(TagKind::KaraokeSet),
        ObjectModel::KaraokeColor(_) => Some(TagKind::KaraokeColor),
        _ => None,
    }
}

/// A named tag gives one object, of its own kind: never an object that a tag of another kind
/// gives. A flag's object holds `true` for `y` and `false` for `n`.
pub proof fn law_tag_gives_its_own_kind(k: TagKind, value: Option<Seq<char>>)
    ensures
        tag_kind_name(k) is Some ==> (kind_tag(k, value) matches Ok(o) ==> o.len() == 1
            && object_kind(o[0]) == Some(k)),
        k matches TagKind::Flag(f) ==> (kind_tag(k, value) matches Ok(o) ==> value matches Some(v)
            && o[0] == ObjectModel::Flag(f, v == seq!['y']) && (v == seq!['y'] || v == seq!['n'])),
{
    assert(seq!['y'][0] != seq!['n'][0]);
}

/// The word of a boolean tag in its error message: its name.
pub open spec fn flag_label(f: FlagTag) -> Seq<char> {
    match f {
        FlagTag::Bold => "bold"@,
        FlagTag::Italic => "italic"@,
        FlagTag::Underline => "underline"@,
        FlagTag::Strikeout => "strikeout"@,
    }
}

fn flag_label_exec(f: FlagTag) -> (s: &'static str)
    ensures
        s@ == flag_label(f),
{
    match f {
        FlagTag::Bold => "bold",
        FlagTag::Italic => "italic",
        FlagTag::Underline => "underline",
        FlagTag::Strikeout => "strikeout",
    }
}

/// What a tag other than `mode` and `animate` gives (an unknown name is an error).
pub open spec fn plain_tag(name: Seq<char>, value: Option<Seq<char>>) -> Result<
    Seq<ObjectModel>,
    Seq<char>,
> {
    match tag_kind(name) {
        Some(k) => kind_tag(k, value),
        None => Err("Invalid tag '"@ + name + "'!"@),
    }
}

/// A `color` tag gives a color object and a `bordercolor` tag a border-color object, both
/// carrying the colors of the value; so the two never give the same object. Likewise `alpha`
/// and `borderalpha` give an alpha and a border-alpha object with the same alphas.
pub proof fn law_color_and_border_color_tags(value: Option<Seq<char>>)
    ensures
        plain_tag("color"@, value) is Ok <==> plain_tag("bordercolor"@, value) is Ok,
        plain_tag("color"@, value) matches Ok(o) ==> value matches Some(v) && colors_of(v) matches Some(
            c,
        ) && o == seq![ObjectModel::Color(c)] && plain_tag("bordercolor"@, value) == Ok::<
            Seq<ObjectModel>,
            Seq<char>,
        >(seq![ObjectModel::BorderColor(c)]),
        plain_tag("alpha"@, value) is Ok <==> plain_tag("borderalpha"@, value) is Ok,
        plain_tag("alpha"@, value) matches Ok(o) ==> value matches Some(v) && alphas_of(v) matches Some(
            a,
        ) && o == seq![ObjectModel::Alpha(a)] && plain_tag("borderalpha"@, value) == Ok::<
            Seq<ObjectModel>,
            Seq<char>,
        >(seq![ObjectModel::BorderAlpha(a)]),
{
    reveal_strlit("font");
    reveal_strlit("size");
    reveal_strlit("bold");
    reveal_strlit("italic");
    reveal_strlit("underline");
    reveal_strlit("strikeout");
    reveal_strlit("position");
    reveal_strlit("alignment");
    reveal_strlit("margin");
    reveal_strlit("margin-top");
    reveal_strlit("margin-right");
    reveal_strlit("margin-bottom");
    reveal_strlit("margin-left");
    reveal_strlit("wrap-style");
    reveal_strlit("direction");
    reveal_strlit("space");
    reveal_strlit("space-h");
    reveal_strlit("space-v");
    reveal_strlit("rotate-x");
    reveal_strlit("rotate-y");
    reveal_strlit("rotate-z");
    reveal_strlit("scale");
    reveal_strlit("scale-x");
    reveal_strlit("scale-y");
    reveal_strlit("scale-z");
    reveal_strlit("translate");
    reveal_strlit("translate-x");
    reveal_strlit("translate-y");
    reveal_strlit("translate-z");
    reveal_strlit("shear");
    reveal_strlit("shear-x");
    reveal_strlit("shear-y");
    reveal_strlit("matrix");
    reveal_strlit("reset");
    reveal_strlit("border");
    reveal_strlit("border-h");
    reveal_strlit("border-v");
    reveal_strlit("join");
    reveal_strlit("cap");
    reveal_strlit("texture");
    reveal_strlit("texfill");
    reveal_strlit("color");
    reveal_strlit("bordercolor");
    reveal_strlit("alpha");
    reveal_strlit("borderalpha");
    assert("color"@[0] != "space"@[0]);
    assert("color"@[0] != "scale"@[0]);
    assert("color"@[0] != "shear"@[0]);
    assert("color"@[0] != "reset"@[0]);
    assert("bordercolor"@[0] != "margin-left"@[0]);
    assert("bordercolor"@[0] != "translate-x"@[0]);
    assert("bordercolor"@[0] != "translate-y"@[0]);
    assert("bordercolor"@[0] != "translate-z"@[0]);
    assert("alpha"@[0] != "space"@[0]);
    assert("alpha"@[0] != "scale"@[0]);
    assert("alpha"@[0] != "shear"@[0]);
    assert("alpha"@[0] != "reset"@[0]);
    assert("alpha"@[0] != "color"@[0]);
    assert("borderalpha"@[0] != "margin-left"@[0]);
    assert("borderalpha"@[0] != "translate-x"@[0]);
    assert("borderalpha"@[0] != "translate-y"@[0]);
    assert("borderalpha"@[0] != "translate-z"@[0]);
    assert("borderalpha"@[6] != "bordercolor"@[6]);
    assert(tag_kind("color"@) == Some(TagKind::Color));
    assert(tag_kind("bordercolor"@) == Some(TagKind::BorderColor));
    assert(tag_kind("alpha"@) == Some(TagKind::Alpha));
    assert(tag_kind("borderalpha"@) == Some(TagKind::BorderAlpha));
}

/// Pushes one object.
fn push_one(objects: &mut Vec<EventObjectData>, o: EventObjectData)
    ensures
        object_models(final(objects)@) == object_models(old(objects)@) + seq![o@],
{
    let ghost before = objects@;
    objects.push(o);
    assert(object_models(objects@) =~= object_models(before) + seq![o@]);
}

/// Reads a tag of kind `k` (see `kind_tag`).
fn kind_tag_exec(k: TagKind, value: Option<&str>, objects: &mut Vec<EventObjectData>) -> (r: Result<
    (),
    ParseError,
>)
    ensures
        match kind_tag(k, opt_str(value)) {
            Ok(o) => r is Ok && object_models(final(objects)@) == object_models(old(objects)@) + o,
            Err(msg) => r matches Err(e) && e.spec_msg() == msg && e.spec_pos() is None
                && e.spec_source() is None && final(objects)@ == old(objects)@,
        },
{
    match k {
        TagKind::Font => match value {
            Some(v) => {
                push_one(objects, EventObjectData::TagFont(v.to_owned()));
                Ok(())
            },
            None => Err(invalid_error("font", value)),
        },
        TagKind::Texture => {
            let t = match value {
                Some(v) => v.to_owned(),
                None => String::new(),
            };
            push_one(objects, EventObjectData::TagTexture(t));
            Ok(())
        },
        TagKind::Flag(f) => match value {
            Some(v) => match bool_from_str(v) {
                Ok(b) => {
                    push_one(objects, EventObjectData::TagFlag(f, b));
                    Ok(())
                },
                Err(()) => Err(invalid_error(flag_label_exec(f), value)),
            },
            None => Err(invalid_error(flag_label_exec(f), value)),
        },
        TagKind::Number(t) => match value {
            Some(v) => match tag_numbers_exec(t, v) {
                Some(ns) => {
                    push_one(
                        objects,
                        EventObjectData::TagNumbers { tag: t, value: v.to_owned(), numbers: ns },
                    );
                    Ok(())
                },
                None => Err(invalid_error(t.label(), value)),
            },
            None => Err(invalid_error(t.label(), value)),
        },
        TagKind::Alignment => match value {
            Some(v) => {
                let chars = chars_of(v);
                if find_char_exec(&chars, ',', 0).is_some() {
                    match tag_numbers_exec(NumberTag::AlignmentOffset, v) {
                        Some(ns) => {
                            push_one(
                                objects,
                                EventObjectData::TagNumbers {
                                    tag: NumberTag::AlignmentOffset,
                                    value: v.to_owned(),
                                    numbers: ns,
                                },
                            );
                            Ok(())
                        },
                        None => Err(invalid_error("alignment", value)),
                    }
                } else {
                    match parse_unsigned(v, 255) {
                        Some(n) => match Numpad::try_from(n as u8) {
                            Ok(p) => {
                                push_one(objects, EventObjectData::TagAlignment(p));
                                Ok(())
                            },
                            Err(()) => Err(invalid_error("alignment", value)),
                        },
                        None => Err(invalid_error("alignment", value)),
                    }
                }
            },
            None => Err(invalid_error("alignment", value)),
        },
        TagKind::WrapStyle => match value {
            Some(v) => match WrapStyle::try_from(v) {
                Ok(w) => {
                    push_one(objects, EventObjectData::TagWrapStyle(w));
                    Ok(())
                },
                Err(()) => Err(invalid_error("wrap style", value)),
            },
            None => Err(invalid_error("wrap style", value)),
        },
        TagKind::Direction => match value {
            Some(v) => match Direction::try_from(v) {
                Ok(d) => {
                    push_one(objects, EventObjectData::TagDirection(d));
                    Ok(())
                },
                Err(()) => Err(invalid_error("direction", value)),
            },
            None => Err(invalid_error("direction", value)),
        },
        TagKind::Join => match value {
            Some(v) => match Join::try_from(v) {
                Ok(j) => {
                    push_one(objects, EventObjectData::TagJoin(j));
                    Ok(())
                },
                Err(()) => Err(invalid_error("join", value)),
            },
            None => Err(invalid_error("join", value)),
        },
        TagKind::Cap => match value {
            Some(v) => match Cap::try_from(v) {
                Ok(c) => {
                    push_one(objects, EventObjectData::TagCap(c));
                    Ok(())
                },
                Err(()) => Err(invalid_error("cap", value)),
            },
            None => Err(invalid_error("cap", value)),
        },
        TagKind::Blend => match value {
            Some(v) => match Blend::try_from(v) {
                Ok(b) => {
                    push_one(objects, EventObjectData::TagBlend(b));
                    Ok(())
                },
                Err(()) => Err(invalid_error("blend", value)),
            },
            None => Err(invalid_error("blend", value)),
        },
        TagKind::Target => match value {
            Some(v) => match Target::try_from(v) {
                Ok(t) => {
                    push_one(objects, EventObjectData::TagTarget(t));
                    Ok(())
                },
                Err(()) => Err(invalid_error("target", value)),
            },
            None => Err(invalid_error("target", value)),
        },
        TagKind::MaskMode => match value {
            Some(v) => match MaskMode::try_from(v) {
                Ok(m) => {
                    push_one(objects, EventObjectData::TagMaskMode(m));
                    Ok(())
                },
                Err(()) => Err(invalid_error("mask mode", value)),
            },
            None => Err(invalid_error("mask mode", value)),
        },
        TagKind::Reset => match value {
            None => {
                push_one(objects, EventObjectData::TagReset);
                Ok(())
            },
            Some(_) => Err(ParseError::new("Reset must have no value!")),
        },
        TagKind::MaskClear => match value {
            None => {
                push_one(objects, EventObjectData::TagMaskClear);
                Ok(())
            },
            Some(_) => Err(ParseError::new("Mask clear must have no value!")),
        },
        TagKind::Color => match value {
            Some(v) => match colors_exec(v) {
                Some(c) => {
                    push_one(objects, EventObjectData::TagColor(c));
                    Ok(())
                },
                None => Err(invalid_error("color", value)),
            },
            None => Err(invalid_error("color", value)),
        },
        TagKind::BorderColor => match value {
            Some(v) => match colors_exec(v) {
                Some(c) => {
                    push_one(objects, EventObjectData::TagBorderColor(c));
                    Ok(())
                },
                None => Err(invalid_error("border color", value)),
            },
            None => Err(invalid_error("border color", value)),
        },
        TagKind::Alpha => match value {
            Some(v) => match alphas_exec(v) {
                Some(a) => {
                    push_one(objects, EventObjectData::TagAlpha(a));
                    Ok(())
                },
                None => Err(invalid_error("alpha", value)),
            },
            None => Err(invalid_error("alpha", value)),
        },
        TagKind::BorderAlpha => match value {
            Some(v) => match alphas_exec(v) {
                Some(a) => {
                    push_one(objects, EventObjectData::TagBorderAlpha(a));
                    Ok(())
                },
                None => Err(invalid_error("border coloalphar", value)),
            },
            None => Err(invalid_error("border coloalphar", value)),
        },
        TagKind::TextureFill => match value {
            Some(v) => {
                let mut p = splitn_str(v, 5, ',');
                if p.len() == 5 {
                    let ghost ps = texts(p@);
                    assert(ps[4] == p@[4]@);
                    match TextureWrapping::try_from(p[4].as_str()) {
                        Ok(w) => {
                            let ghost all = p@;
                            p.truncate(4);
                            assert(texts(p@) =~= ps.take(4));
                            push_one(
                                objects,
                                EventObjectData::TagTextureFill {
                                    value: v.to_owned(),
                                    numbers: p,
                                    wrap: w,
                                },
                            );
                            Ok(())
                        },
                        Err(()) => Err(invalid_error("texture filling", value)),
                    }
                } else {
                    Err(invalid_error("texture filling", value))
                }
            },
            None => Err(invalid_error("texture filling", value)),
        },
        TagKind::Karaoke => match value {
            Some(v) => match parse_unsigned(v, u32::MAX) {
                Some(n) => {
                    push_one(objects, EventObjectData::TagKaraoke(n));
                    Ok(())
                },
                None => Err(invalid_error("karaoke", value)),
            },
            None => Err(invalid_error("karaoke", value)),
        },
        TagKind::KaraokeSet => match value {
            Some(v) => match parse_unsigned(v, u32::MAX) {
                Some(n) => {
                    push_one(objects, EventObjectData::TagKaraokeSet(n));
                    Ok(())
                },
                None => Err(invalid_error("karaoke set", value)),
            },
            None => Err(invalid_error("karaoke set", value)),
        },
        TagKind::KaraokeColor => match value {
            Some(v) => match rgb_from_str(v) {
                Ok(c) => {
                    push_one(objects, EventObjectData::TagKaraokeColor(c));
                    Ok(())
                },
                Err(()) => Err(invalid_error("karaoke color", value)),
            },
            None => Err(invalid_error("karaoke color", value)),
        },
    }
}

/// A message, and the message of the error that caused it where there is one.
pub type TagError = (Seq<char>, Option<Seq<char>>);

/// Reads the tags of `s` from character `pos_chars` on (as `TagsIterator` splits them), with
/// no mode to set (the tags of an animation): the objects, up to the first error.
pub open spec fn inner_tags(s: Seq<char>, pos_chars: int, objs: Seq<ObjectModel>) -> (
    Seq<ObjectModel>,
    Option<Seq<char>>,
)
    decreases s.len() - pos_chars,
{
    if pos_chars < 0 || pos_chars > s.len() {
        (objs, None)
    } else {
        let pos = utf8_len(s.take(pos_chars));
        match next_tag_token(s, pos as int, pos_chars) {
            None => (objs, None),
            Some((from, to, next)) => {
                proof {
                    lemma_tag_separator_range(s, pos as int, 0);
                    lemma_utf8_len_at_least_len(s.take(pos_chars));
                }
                let (name, value) = split_tag_token(s.subrange(from, to));
                match plain_tag(name, value) {
                    Ok(o) => inner_tags(s, next, objs + o),
                    Err(m) => (objs, Some(m)),
                }
            },
        }
    }
}

/// `-?\d+`.
pub open spec fn int_text(s: Seq<char>) -> bool {
    let d = if s.len() > 0 && s[0] == '-' {
        s.skip(1)
    } else {
        s
    };
    d.len() > 0 && all_digits(d)
}

/// The `i32` that an `int_text` denotes, where it fits.
pub open spec fn i32_of(s: Seq<char>) -> Option<i32> {
    if s.len() > 0 && s[0] == '-' {
        let v = decimal_value(s.skip(1));
        if v <= 0x8000_0000 {
            Some((-v) as i32)
        } else {
            None
        }
    } else {
        let v = decimal_value(s);
        if v <= 0x7fff_ffff {
            Some(v as i32)
        } else {
            None
        }
    }
}

/// No line feed.
pub open spec fn single_line(s: Seq<char>) -> bool {
    forall|i: int| 0 <= i < s.len() ==> s[i] != '\n'
}

/// The end of an animation value, `[tags]` or `formula,[tags]`: the formula and the tags.
pub open spec fn animate_tail(r: Seq<char>) -> Option<(Option<Seq<char>>, Seq<char>)> {
    match find_char(r, '[') {
        None => None,
        Some(b) => if r.len() >= 2 && r.last() == ']' && b < r.len() - 1 && single_line(
            r.subrange(b + 1, r.len() - 1),
        ) {
            let t = r.subrange(b + 1, r.len() - 1);
            if b == 0 {
                Some((None, t))
            } else if b >= 2 && r[b - 1] == ',' {
                Some((Some(r.take(b - 1)), t))
            } else {
                None
            }
        } else {
            None
        },
    }
}

/// The parts of an animation value `[start,end,][formula,][tags]`: the start and end texts,
/// the formula and the tags; the form with times is tried first.
pub open spec fn animate_parts(v: Seq<char>) -> Option<
    (Option<(Seq<char>, Seq<char>)>, Option<Seq<char>>, Seq<char>),
> {
    let timed = match find_char(v, ',') {
        Some(a) => match find_char_from(v, ',', a + 1) {
            Some(b) => if int_text(v.take(a)) && int_text(v.subrange(a + 1, b)) {
                match animate_tail(v.skip(b + 1)) {
                    Some((f, t)) => Some((Some((v.take(a), v.subrange(a + 1, b))), f, t)),
                    None => None,
                }
            } else {
                None
            },
            None => None,
        },
        None => None,
    };
    match timed {
        Some(x) => Some(x),
        None => match animate_tail(v) {
            Some((f, t)) => Some((None, f, t)),
            None => None,
        },
    }
}

/// What an `animate` tag gives: the animation object, followed by its tags; or, where the tag
/// or one of its tags is invalid, no object and the error (with the error of the inner tag as
/// its cause).
pub open spec fn animate_tag(value: Option<Seq<char>>) -> (Seq<ObjectModel>, Option<TagError>) {
    match value {
        None => (Seq::empty(), Some((invalid_text("animate"@, value), None))),
        Some(v) => match animate_parts(v) {
            None => (Seq::empty(), Some((invalid_text("animate"@, value), None))),
            Some((time, formula, t)) => {
                let times = match time {
                    None => Some(None),
                    Some((a, b)) => match (i32_of(a), i32_of(b)) {
                        (Some(x), Some(y)) => Some(Some((x, y))),
                        _ => None,
                    },
                };
                match times {
                    None => (Seq::empty(), Some((invalid_text("animate"@, value), None))),
                    Some(tm) => {
                        let (o, e) = inner_tags(t, 0, Seq::empty());
                        match e {
                            None => (seq![ObjectModel::Animate(v, tm, formula, o.len())] + o, None),
                            Some(m) => (
                                Seq::empty(),
                                Some((invalid_text("animate"@, value), Some(m))),
                            ),
                        }
                    },
                }
            },
        },
    }
}

/// Reads the tags of `s` from character `pos_chars` on, in mode `mode` (which a `mode` tag
/// sets): the objects, the mode, and the first error.
pub open spec fn outer_tags(s: Seq<char>, pos_chars: int, mode: Mode, objs: Seq<ObjectModel>) -> (
    Seq<ObjectModel>,
    Mode,
    Option<TagError>,
)
    decreases s.len() - pos_chars,
{
    if pos_chars < 0 || pos_chars > s.len() {
        (objs, mode, None)
    } else {
        let pos = utf8_len(s.take(pos_chars));
        match next_tag_token(s, pos as int, pos_chars) {
            None => (objs, mode, None),
            Some((from, to, next)) => {
                proof {
                    lemma_tag_separator_range(s, pos as int, 0);
                    lemma_utf8_len_at_least_len(s.take(pos_chars));
                }
                let (name, value) = split_tag_token(s.subrange(from, to));
                if name == "mode"@ {
                    match value {
                        Some(v) => match mode_of(v) {
                            Some(m) => outer_tags(s, next, m, objs),
                            None => (objs, mode, Some((invalid_text("mode"@, value), None))),
                        },
                        None => (objs, mode, Some((invalid_text("mode"@, value), None))),
                    }
                } else if name == "animate"@ {
                    let (o, e) = animate_tag(value);
                    match e {
                        None => outer_tags(s, next, mode, objs + o),
                        Some(err) => (objs + o, mode, Some(err)),
                    }
                } else {
                    match plain_tag(name, value) {
                        Ok(o) => outer_tags(s, next, mode, objs + o),
                        Err(m) => (objs, mode, Some((m, None))),
                    }
                }
            },
        }
    }
}

/// Whether tag data holds a tag named `mode`, from character `pos_chars` on (its tags as
/// `outer_tags` reads them).
pub open spec fn has_mode_tag(s: Seq<char>, pos_chars: int) -> bool
    decreases s.len() - pos_chars,
{
    if pos_chars < 0 || pos_chars > s.len() {
        false
    } else {
        let pos = utf8_len(s.take(pos_chars));
        match next_tag_token(s, pos as int, pos_chars) {
            None => false,
            Some((from, to, next)) => {
                proof {
                    lemma_tag_separator_range(s, pos as int, 0);
                    lemma_utf8_len_at_least_len(s.take(pos_chars));
                }
                split_tag_token(s.subrange(from, to)).0 == "mode"@ || has_mode_tag(s, next)
            },
        }
    }
}

/// Only a `mode` tag changes the mode: tag data without one leaves the mode as it was,
/// whatever else its tags do (also where one of them fails).
pub proof fn law_only_mode_tags_set_mode(
    s: Seq<char>,
    pos_chars: int,
    mode: Mode,
    objs: Seq<ObjectModel>,
)
    requires
        !has_mode_tag(s, pos_chars),
    ensures
        outer_tags(s, pos_chars, mode, objs).1 == mode,
    decreases s.len() - pos_chars,
{
    if 0 <= pos_chars <= s.len() {
        let pos = utf8_len(s.take(pos_chars));
        if let Some((from, to, next)) = next_tag_token(s, pos as int, pos_chars) {
            lemma_tag_separator_range(s, pos as int, 0);
            lemma_utf8_len_at_least_len(s.take(pos_chars));
            let (name, value) = split_tag_token(s.subrange(from, to));
            assert(name != "mode"@);
            if name == "animate"@ {
                let (o, e) = animate_tag(value);
                if e is None {
                    law_only_mode_tags_set_mode(s, next, mode, objs + o);
                }
            } else {
                if let Ok(o) = plain_tag(name, value) {
                    law_only_mode_tags_set_mode(s, next, mode, objs + o);
                }
            }
        }
    }
}

/// The value of the last `mode` tag of tag data, from character `pos_chars` on (its tags as
/// `outer_tags` reads them; a `mode` tag without value counts with an empty one).
pub open spec fn last_mode_value(s: Seq<char>, pos_chars: int) -> Option<Seq<char>>
    decreases s.len() - pos_chars,
{
    if pos_chars < 0 || pos_chars > s.len() {
        None
    } else {
        let pos = utf8_len(s.take(pos_chars));
        match next_tag_token(s, pos as int, pos_chars) {
            None => None,
            Some((from, to, next)) => {
                proof {
                    lemma_tag_separator_range(s, pos as int, 0);
                    lemma_utf8_len_at_least_len(s.take(pos_chars));
                }
                let (name, value) = split_tag_token(s.subrange(from, to));
                match last_mode_value(s, next) {
                    Some(v) => Some(v),
                    None => if name == "mode"@ {
                        Some(or_empty(value))
                    } else {
                        None
                    },
                }
            },
        }
    }
}

/// Tag data read without error leaves the mode that its last `mode` tag names, or the mode it
/// was read in where it has no `mode` tag.
pub proof fn law_last_mode_tag_sets_mode(
    s: Seq<char>,
    pos_chars: int,
    mode: Mode,
    objs: Seq<ObjectModel>,
)
    requires
        outer_tags(s, pos_chars, mode, objs).2 is None,
    ensures
        outer_tags(s, pos_chars, mode, objs).1 == match last_mode_value(s, pos_chars) {
            Some(v) => mode_of(v)->0,
            None => mode,
        },
        last_mode_value(s, pos_chars) matches Some(v) ==> mode_of(v) is Some,
    decreases s.len() - pos_chars,
{
    if 0 <= pos_chars <= s.len() {
        let pos = utf8_len(s.take(pos_chars));
        if let Some((from, to, next)) = next_tag_token(s, pos as int, pos_chars) {
            lemma_tag_separator_range(s, pos as int, 0);
            lemma_utf8_len_at_least_len(s.take(pos_chars));
            let (name, value) = split_tag_token(s.subrange(from, to));
            if name == "mode"@ {
                let v = value->0;
                law_last_mode_tag_sets_mode(s, next, mode_of(v)->0, objs);
            } else if name == "animate"@ {
                let (o, e) = animate_tag(value);
                law_last_mode_tag_sets_mode(s, next, mode, objs + o);
            } else {
                let o = plain_tag(name, value)->Ok_0;
                law_last_mode_tag_sets_mode(s, next, mode, objs + o);
            }
        }
    }
}

/// What reading tag data gives with a mode to set (`Some`) or without (`None`, as in the
/// tags of an animation, where `mode` and `animate` are unknown tags): the objects, the mode
/// after the tags, and the first error.
pub open spec fn tags_spec(data: Seq<char>, mode: Option<Mode>) -> (
    Seq<ObjectModel>,
    Option<Mode>,
    Option<TagError>,
) {
    match mode {
        None => {
            let (o, e) = inner_tags(data, 0, Seq::empty());
            (
                o,
                None,
                match e {
                    None => None,
                    Some(m) => Some((m, None)),
                },
            )
        },
        Some(m) => {
            let (o, m2, e) = outer_tags(data, 0, m, Seq::empty());
            (o, Some(m2), e)
        },
    }
}

/// Whether `e` is the error `err` describes: message, no position, and the cause's message.
pub open spec fn is_tag_error(e: ParseError, err: TagError) -> bool {
    &&& e.spec_msg() == err.0
    &&& e.spec_pos() is None
    &&& match err.1 {
        None => e.spec_source() is None,
        Some(m) => e.spec_source() matches Some(x) && x.spec_msg() == m && x.spec_pos() is None
            && x.spec_source() is None,
    }
}

/// The error `Invalid tag '<name>'!`.
fn invalid_tag_error(name: &str) -> (e: ParseError)
    ensures
        e.spec_msg() == "Invalid tag '"@ + name@ + "'!"@,
        e.spec_pos() is None,
        e.spec_source() is None,
{
    let mut text = String::new();
    text.append("Invalid tag '");
    text.append(name);
    text.append("'!");
    ParseError::new(text.as_str())
}

/// Reads a tag other than `mode` and `animate` (see `plain_tag`).
fn plain_tag_exec(name: &str, value: Option<&str>, objects: &mut Vec<EventObjectData>) -> (r: Result<
    (),
    ParseError,
>)
    ensures
        match plain_tag(name@, opt_str(value)) {
            Ok(o) => r is Ok && object_models(final(objects)@) == object_models(old(objects)@) + o,
            Err(msg) => r matches Err(e) && e.spec_msg() == msg && e.spec_pos() is None
                && e.spec_source() is None && final(objects)@ == old(objects)@,
        },
{
    match tag_kind_exec(name) {
        Some(k) => kind_tag_exec(k, value, objects),
        None => Err(invalid_tag_error(name)),
    }
}

/// Reads the tags of an animation (see `inner_tags`).
fn inner_tags_exec(data: &str, objects: &mut Vec<EventObjectData>) -> (r: Result<(), ParseError>)
    requires
        utf8_len(data@) <= usize::MAX,
    ensures
        object_models(final(objects)@) == object_models(old(objects)@) + inner_tags(
            data@,
            0,
            Seq::empty(),
        ).0,
        match inner_tags(data@, 0, Seq::empty()).1 {
            None => r is Ok,
            Some(m) => r matches Err(e) && e.spec_msg() == m && e.spec_pos() is None
                && e.spec_source() is None,
        },
{
    let mut it = TagsIterator::new(data);
    let ghost base = object_models(objects@);
    assert(base + Seq::<ObjectModel>::empty() =~= base);
    loop
        invariant
            it.wf(),
            it.spec_text() == data@,
            base == object_models(old(objects)@),
            object_models(objects@) == base + object_models(objects@).skip(base.len() as int),
            base.len() <= object_models(objects@).len(),
            inner_tags(data@, 0, Seq::empty()) == inner_tags(
                data@,
                it.spec_pos_chars() as int,
                object_models(objects@).skip(base.len() as int),
            ),
        decreases data@.len() - it.spec_pos_chars(),
    {
        proof {
            it.lemma_pos();
        }
        let ghost pc = it.spec_pos_chars() as int;
        let ghost acc = object_models(objects@).skip(base.len() as int);
        match it.next() {
            None => {
                return Ok(());
            },
            Some((name, value)) => {
                proof {
                    lemma_tag_separator_range(data@, utf8_len(data@.take(pc)) as int, 0);
                    lemma_utf8_len_at_least_len(data@.take(pc));
                }
                let ghost before = object_models(objects@);
                match plain_tag_exec(name, value, objects) {
                    Ok(()) => {
                        proof {
                            let o = plain_tag(name@, opt_str(value))->Ok_0;
                            assert(object_models(objects@).skip(base.len() as int) =~= acc + o);
                            assert(object_models(objects@) =~= base + (acc + o));
                        }
                    },
                    Err(e) => {
                        assert(acc =~= object_models(objects@).skip(base.len() as int));
                        return Err(e);
                    },
                }
            },
        }
    }
}

/// Whether `v[from..to]` is an `int_text`.
fn int_text_exec(v: &Vec<char>, from: usize, to: usize) -> (r: bool)
    requires
        from <= to <= v@.len(),
    ensures
        r == int_text(v@.subrange(from as int, to as int)),
{
    let ghost s = v@.subrange(from as int, to as int);
    let start = if from < to && v[from] == '-' {
        from + 1
    } else {
        from
    };
    assert(v@.subrange(start as int, to as int) =~= (if s.len() > 0 && s[0] == '-' {
        s.skip(1)
    } else {
        s
    }));
    start < to && crate::utils::functions::convert::all_digits_exec(v, start, to)
}

/// `i32_of(s)` for an `int_text`, computed.
fn i32_exec(s: &str) -> (r: Option<i32>)
    requires
        int_text(s@),
    ensures
        r == i32_of(s@),
{
    let v = chars_of(s);
    if v.len() > 0 && v[0] == '-' {
        let rest = string_of(&v, 1, v.len());
        assert(rest@ =~= s@.skip(1));
        assert(rest@.len() > 0 && rest@[0] != '+') by {
            assert(is_digit(rest@[0]));
        }
        match parse_unsigned(rest.as_str(), 0x8000_0000) {
            Some(x) => {
                if x == 0x8000_0000 {
                    Some(i32::MIN)
                } else {
                    Some(-(x as i32))
                }
            },
            None => None,
        }
    } else {
        assert(s@.len() > 0 && s@[0] != '+') by {
            assert(is_digit(s@[0]));
        }
        match parse_unsigned(s, 0x7fff_ffff) {
            Some(x) => Some(x as i32),
            None => None,
        }
    }
}

/// `animate_tail(v[from..])`, computed.
fn animate_tail_exec(v: &Vec<char>, from: usize) -> (r: Option<(Option<String>, String)>)
    requires
        from <= v@.len(),
    ensures
        match animate_tail(v@.skip(from as int)) {
            Some((f, t)) => r matches Some((x, y)) && y@ == t && match x {
                Some(z) => f == Some(z@),
                None => f is None,
            },
            None => r is None,
        },
        r matches Some((_, y)) ==> utf8_len(y@) <= utf8_len(v@),
{
    let ghost r = v@.skip(from as int);
    let len = v.len();
    proof {
        crate::text::lemma_find_char_skip(v@, '[', from as int, 0);
        lemma_find_char_from(v@, '[', from as int);
    }
    match find_char_exec(v, '[', from) {
        None => None,
        Some(b) => {
            if !(len - from >= 2 && v[len - 1] == ']' && b < len - 1) {
                return None;
            }
            assert(r.last() == v@[len - 1]);
            let ghost t = r.subrange(b - from + 1, r.len() - 1);
            assert(t =~= v@.subrange(b + 1, len - 1));
            proof {
                lemma_find_char_from(t, '\n', 0);
            }
            match crate::text::find_char_in(v, '\n', b + 1, len - 1) {
                Some(_) => {
                    return None;
                },
                None => {},
            }
            let tags = string_of(v, b + 1, len - 1);
            proof {
                lemma_utf8_len_subrange(v@, b + 1, len - 1);
            }
            if b == from {
                Some((None, tags))
            } else if b - from >= 2 && v[b - 1] == ',' {
                assert(r[b - from - 1] == v@[b - 1]);
                let f = string_of(v, from, b - 1);
                assert(f@ =~= r.take(b - from - 1));
                Some((Some(f), tags))
            } else {
                assert(r[b - from - 1] == v@[b - 1]);
                None
            }
        },
    }
}

/// `animate_parts(v)`, computed.
fn animate_parts_exec(v: &Vec<char>) -> (r: Option<
    (Option<(String, String)>, Option<String>, String),
>)
    ensures
        match animate_parts(v@) {
            Some((time, f, t)) => r matches Some((x, y, z)) && z@ == t && match x {
                Some((a, b)) => time == Some((a@, b@)),
                None => time is None,
            } && match y {
                Some(w) => f == Some(w@),
                None => f is None,
            },
            None => r is None,
        },
        r matches Some((_, _, z)) ==> utf8_len(z@) <= utf8_len(v@),
{
    let n = v.len();
    proof {
        lemma_find_char_from(v@, ',', 0);
    }
    match find_char_exec(v, ',', 0) {
        Some(a) => {
            proof {
                lemma_find_char_from(v@, ',', a + 1);
            }
            match find_char_exec(v, ',', a + 1) {
                Some(b) => {
                    if int_text_exec(v, 0, a) && int_text_exec(v, a + 1, b) {
                        assert(v@.subrange(0, a as int) =~= v@.take(a as int));
                        match animate_tail_exec(v, b + 1) {
                            Some((f, t)) => {
                                let s = string_of(v, 0, a);
                                let e = string_of(v, a + 1, b);
                                return Some((Some((s, e)), f, t));
                            },
                            None => {},
                        }
                    } else {
                        assert(v@.subrange(0, a as int) =~= v@.take(a as int));
                    }
                },
                None => {},
            }
        },
        None => {},
    }
    assert(v@.skip(0) =~= v@);
    match animate_tail_exec(v, 0) {
        Some((f, t)) => Some((None, f, t)),
        None => None,
    }
}

/// Reads an `animate` tag (see `animate_tag`).
fn animate_exec(value: Option<&str>, objects: &mut Vec<EventObjectData>) -> (r: Result<
    (),
    ParseError,
>)
    requires
        value matches Some(v) ==> utf8_len(v@) <= usize::MAX,
    ensures
        object_models(final(objects)@) == object_models(old(objects)@) + animate_tag(
            opt_str(value),
        ).0,
        match animate_tag(opt_str(value)).1 {
            None => r is Ok,
            Some(err) => r matches Err(e) && is_tag_error(e, err) && final(objects)@ == old(
                objects,
            )@,
        },
{
    let v = match value {
        Some(v) => v,
        None => {
            return Err(invalid_error("animate", value));
        },
    };
    let chars = chars_of(v);
    let (time, formula, tags) = match animate_parts_exec(&chars) {
        Some(p) => p,
        None => {
            return Err(invalid_error("animate", value));
        },
    };
    let times = match time {
        None => None,
        Some((a, b)) => {
            let x = match i32_exec(a.as_str()) {
                Some(x) => x,
                None => {
                    return Err(invalid_error("animate", value));
                },
            };
            let y = match i32_exec(b.as_str()) {
                Some(y) => y,
                None => {
                    return Err(invalid_error("animate", value));
                },
            };
            Some((x, y))
        },
    };
    let ghost o = inner_tags(tags@, 0, Seq::empty()).0;
    let ghost before = object_models(objects@);
    let mut inner: Vec<EventObjectData> = Vec::new();
    assert(object_models(inner@) =~= Seq::<ObjectModel>::empty());
    let res = inner_tags_exec(tags.as_str(), &mut inner);
    assert(object_models(inner@) =~= o);
    match res {
        Ok(()) => {
            let count = inner.len();
            let head = EventObjectData::TagAnimate {
                value: v.to_owned(),
                time: times,
                formula,
                tags: count,
            };
            push_one(objects, head);
            let ghost mid = objects@;
            objects.append(&mut inner);
            assert(object_models(objects@) =~= object_models(mid) + o);
            Ok(())
        },
        Err(e) => {
            assert(object_models(objects@) =~= before + Seq::<ObjectModel>::empty());
            let text = invalid_text_exec("animate", value);
            Err(ParseError::new_with_cause(text.as_str(), e))
        },
    }
}
/// The value of a tag token is no longer in bytes than the text.
proof fn lemma_token_value_len(s: Seq<char>, pc: int)
    requires
        0 <= pc <= s.len(),
    ensures
        next_tag_token(s, utf8_len(s.take(pc)) as int, pc) matches Some((from, to, next)) ==> (
        split_tag_token(s.subrange(from, to)).1 matches Some(v) ==> utf8_len(v) <= utf8_len(s)),
{
    let pos = utf8_len(s.take(pc)) as int;
    lemma_tag_separator_range(s, pos, 0);
    lemma_utf8_len_at_least_len(s.take(pc));
    if let Some((from, to, next)) = next_tag_token(s, pos, pc) {
        let tok = s.subrange(from, to);
        lemma_find_char_from(tok, '=', 0);
        if let Some(a) = find_char(tok, '=') {
            assert(tok.skip(a + 1) =~= s.subrange(from + a + 1, to));
            lemma_utf8_len_subrange(s, from + a + 1, to);
        }
    }
}

/// Reads tag data in mode `mode` (see `outer_tags`): the mode after the tags, and the result.
fn outer_tags_exec(data: &str, objects: &mut Vec<EventObjectData>, mode: Mode) -> (r: (
    Mode,
    Result<(), ParseError>,
))
    requires
        utf8_len(data@) <= usize::MAX,
    ensures
        object_models(final(objects)@) == object_models(old(objects)@) + outer_tags(
            data@,
            0,
            mode,
            Seq::empty(),
        ).0,
        r.0 == outer_tags(data@, 0, mode, Seq::empty()).1,
        match outer_tags(data@, 0, mode, Seq::empty()).2 {
            None => r.1 is Ok,
            Some(err) => r.1 matches Err(e) && is_tag_error(e, err),
        },
{
    let mut it = TagsIterator::new(data);
    let mut current = mode;
    let ghost base = object_models(objects@);
    assert(base + Seq::<ObjectModel>::empty() =~= base);
    assert(object_models(objects@).skip(base.len() as int) =~= Seq::<ObjectModel>::empty());
    loop
        invariant
            it.wf(),
            it.spec_text() == data@,
            base == object_models(old(objects)@),
            object_models(objects@) == base + object_models(objects@).skip(base.len() as int),
            base.len() <= object_models(objects@).len(),
            outer_tags(data@, 0, mode, Seq::empty()) == outer_tags(
                data@,
                it.spec_pos_chars() as int,
                current,
                object_models(objects@).skip(base.len() as int),
            ),
        decreases data@.len() - it.spec_pos_chars(),
    {
        proof {
            it.lemma_pos();
            lemma_token_value_len(data@, it.spec_pos_chars() as int);
        }
        let ghost pc = it.spec_pos_chars() as int;
        let ghost acc = object_models(objects@).skip(base.len() as int);
        match it.next() {
            None => {
                return (current, Ok(()));
            },
            Some((name, value)) => {
                proof {
                    lemma_tag_separator_range(data@, utf8_len(data@.take(pc)) as int, 0);
                    lemma_utf8_len_at_least_len(data@.take(pc));
                }
                if crate::text::str_eq(name, "mode") {
                    match value {
                        Some(v) => match Mode::try_from(v) {
                            Ok(m) => {
                                current = m;
                            },
                            Err(()) => {
                                return (current, Err(invalid_error("mode", value)));
                            },
                        },
                        None => {
                            return (current, Err(invalid_error("mode", value)));
                        },
                    }
                } else if crate::text::str_eq(name, "animate") {
                    match animate_exec(value, objects) {
                        Ok(()) => {
                            proof {
                                let o = animate_tag(opt_str(value)).0;
                                assert(object_models(objects@).skip(base.len() as int) =~= acc + o);
                                assert(object_models(objects@) =~= base + (acc + o));
                            }
                        },
                        Err(e) => {
                            proof {
                                let o = animate_tag(opt_str(value)).0;
                                assert(object_models(objects@).skip(base.len() as int) =~= acc + o);
                            }
                            return (current, Err(e));
                        },
                    }
                } else {
                    match plain_tag_exec(name, value, objects) {
                        Ok(()) => {
                            proof {
                                let o = plain_tag(name@, opt_str(value))->Ok_0;
                                assert(object_models(objects@).skip(base.len() as int) =~= acc + o);
                                assert(object_models(objects@) =~= base + (acc + o));
                            }
                        },
                        Err(e) => {
                            assert(acc =~= object_models(objects@).skip(base.len() as int));
                            return (current, Err(e));
                        },
                    }
                }
            },
        }
    }
}

/// Reads the tags of tag data into objects (numbers that are not integers as their texts).
///
/// With a mode (`Some`), a `mode` tag sets it and `animate` tags are read, their own tags
/// with no mode; without one, `mode` and `animate` are unknown tags. The objects of the tags
/// before an error are kept; a tag that fails, an animation among them, adds none.
pub fn parse_tags(data: &str, objects: &mut Vec<EventObjectData>, mode: &mut Option<Mode>) -> (r:
    Result<(), ParseError>)
    requires
        utf8_len(data@) <= usize::MAX,
    ensures
        object_models(final(objects)@) == object_models(old(objects)@) + tags_spec(
            data@,
            *old(mode),
        ).0,
        *final(mode) == tags_spec(data@, *old(mode)).1,
        match tags_spec(data@, *old(mode)).2 {
            None => r is Ok,
            Some(err) => r matches Err(e) && is_tag_error(e, err),
        },
{
    match *mode {
        None => inner_tags_exec(data, objects),
        Some(m) => {
            let (m2, res) = outer_tags_exec(data, objects, m);
            *mode = Some(m2);
            res
        },
    }
}

} // verus!
