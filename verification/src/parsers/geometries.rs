//! Geometries of event data: text, points or shapes, by the current mode.
use vstd::prelude::*;
use crate::error::ParseError;
use crate::objects::{
    object_models, segment_arity, segment_number_label, segments, texts, EventObjectData,
    ObjectModel, SegmentData, SegmentKind, SegmentModel,
};
use crate::text::{chars_of, str_eq, string_of};
use crate::utils::state::{Mode, ShapeSegmentType};

verus! {

/// ASCII white space, as `u8::is_ascii_whitespace` has it.
pub open spec fn is_ascii_ws(c: char) -> bool {
    c == ' ' || c == '\t' || c == '\n' || c == '\x0C' || c == '\r'
}

/// The end of the run of characters other than white space that starts at `j`.
pub open spec fn token_end(s: Seq<char>, j: int) -> int
    decreases s.len() - j,
{
    if 0 <= j < s.len() && !is_ascii_ws(s[j]) {
        token_end(s, j + 1)
    } else {
        j
    }
}

pub proof fn lemma_token_end(s: Seq<char>, j: int)
    requires
        0 <= j <= s.len(),
    ensures
        j <= token_end(s, j) <= s.len(),
        forall|k: int| j <= k < token_end(s, j) ==> !is_ascii_ws(#[trigger] s[k]),
        token_end(s, j) < s.len() ==> is_ascii_ws(s[token_end(s, j)]),
    decreases s.len() - j,
{
    if j < s.len() && !is_ascii_ws(s[j]) {
        lemma_token_end(s, j + 1);
    }
}

/// The words of `s` between ASCII white space (`str::split_ascii_whitespace`).
pub open spec fn ws_tokens(s: Seq<char>) -> Seq<Seq<char>>
    decreases s.len(),
{
    if s.len() == 0 {
        Seq::empty()
    } else if is_ascii_ws(s[0]) {
        ws_tokens(s.skip(1))
    } else {
        proof {
            lemma_token_end(s, 1);
        }
        let e = token_end(s, 1);
        seq![s.take(e)] + ws_tokens(s.skip(e))
    }
}

proof fn lemma_token_end_skip(s: Seq<char>, p: int, k: int)
    requires
        0 <= p <= s.len(),
        0 <= k,
    ensures
        token_end(s.skip(p), k) == token_end(s, p + k) - p,
    decreases s.len() - p - k,
{
    if k < s.len() - p && !is_ascii_ws(s[p + k]) {
        lemma_token_end_skip(s, p, k + 1);
    }
}

/// `ws_tokens(s)`, computed.
pub fn ws_tokens_exec(s: &str) -> (r: Vec<String>)
    ensures
        texts(r@) == ws_tokens(s@),
{
    let v = chars_of(s);
    let len = v.len();
    let mut out: Vec<String> = Vec::new();
    let mut pos: usize = 0;
    assert(v@.skip(0) =~= v@);
    while pos < len
        invariant
            pos <= len,
            len == v@.len(),
            v@ == s@,
            texts(out@) + ws_tokens(v@.skip(pos as int)) == ws_tokens(s@),
        decreases len - pos,
    {
        let ghost rest = v@.skip(pos as int);
        let c = v[pos];
        if c == ' ' || c == '\t' || c == '\n' || c == '\x0C' || c == '\r' {
            assert(rest.skip(1) =~= v@.skip(pos + 1));
            pos = pos + 1;
        } else {
            let mut e = pos + 1;
            proof {
                lemma_token_end(v@, pos + 1);
                lemma_token_end_skip(v@, pos as int, 1);
            }
            while e < len && !(v[e] == ' ' || v[e] == '\t' || v[e] == '\n' || v[e] == '\x0C'
                || v[e] == '\r')
                invariant
                    pos < e <= len,
                    len == v@.len(),
                    token_end(v@, pos + 1) == token_end(v@, e as int),
                decreases len - e,
            {
                e = e + 1;
            }
            let word = string_of(&v, pos, e);
            assert(word@ =~= rest.take(e - pos));
            assert(rest.skip(e - pos) =~= v@.skip(e as int));
            let ghost before = out@;
            out.push(word);
            assert(texts(out@) =~= texts(before) + seq![word@]);
            assert(texts(out@) + ws_tokens(v@.skip(e as int)) =~= texts(before) + ws_tokens(rest));
            pos = e;
        }
    }
    assert(v@.skip(pos as int) =~= Seq::<char>::empty());
    assert(texts(out@) + Seq::<Seq<char>>::empty() =~= texts(out@));
    out
}

/// The segment kind of a shape segment type.
pub open spec fn kind_of(t: ShapeSegmentType) -> SegmentKind {
    match t {
        ShapeSegmentType::Move => SegmentKind::Move,
        ShapeSegmentType::Line => SegmentKind::Line,
        ShapeSegmentType::Curve => SegmentKind::Curve,
        ShapeSegmentType::Arc => SegmentKind::Arc,
    }
}

/// The message `Invalid <label> ''!` for a number that is missing.
pub open spec fn missing_number_text(kind: SegmentKind, k: int) -> Seq<char> {
    "Invalid "@ + segment_number_label(kind, k) + " ''!"@
}

/// Reads the words of a shape from `i` on, the segment type being `st`: `m`, `l`, `b` and `a`
/// set the type (move, line, curve, arc), `c` closes the shape (and sets move), any other
/// word starts a segment of the type, with the words after it as its further numbers. The
/// segments, and the error where a segment lacks numbers (the segments end with that segment
/// and the numbers it has).
pub open spec fn shape_spec(
    t: Seq<Seq<char>>,
    i: int,
    st: ShapeSegmentType,
    segs: Seq<SegmentModel>,
) -> (Seq<SegmentModel>, Option<Seq<char>>)
    decreases t.len() - i,
{
    if i < 0 || i >= t.len() {
        (segs, None)
    } else if t[i] == seq!['m'] {
        shape_spec(t, i + 1, ShapeSegmentType::Move, segs)
    } else if t[i] == seq!['l'] {
        shape_spec(t, i + 1, ShapeSegmentType::Line, segs)
    } else if t[i] == seq!['b'] {
        shape_spec(t, i + 1, ShapeSegmentType::Curve, segs)
    } else if t[i] == seq!['a'] {
        shape_spec(t, i + 1, ShapeSegmentType::Arc, segs)
    } else if t[i] == seq!['c'] {
        shape_spec(
            t,
            i + 1,
            ShapeSegmentType::Move,
            segs.push(SegmentModel { kind: SegmentKind::Close, numbers: Seq::empty() }),
        )
    } else {
        let kind = kind_of(st);
        let n = segment_arity(kind);
        if i + n <= t.len() {
            shape_spec(t, i + n, st, segs.push(SegmentModel { kind, numbers: t.subrange(i, i + n) }))
        } else {
            (
                segs.push(SegmentModel { kind, numbers: t.subrange(i, t.len() as int) }),
                Some(missing_number_text(kind, t.len() - i)),
            )
        }
    }
}

/// Whether a word of a shape is a command: `m`, `l`, `b` or `a` (set the segment type) or `c`
/// (close the shape).
pub open spec fn is_shape_command(w: Seq<char>) -> bool {
    w == seq!['m'] || w == seq!['l'] || w == seq!['b'] || w == seq!['a'] || w == seq!['c']
}

/// A segment type stays in force until the next command: from word `i` on, with type `st`,
/// words none of which is a command, `q` segments' worth of them, give `q` more segments
/// after those read before, each of the kind of `st` and the `k`-th with the `k`-th run of
/// the words as its numbers, and no error.
pub proof fn law_shape_type_persists(
    t: Seq<Seq<char>>,
    i: int,
    st: ShapeSegmentType,
    segs: Seq<SegmentModel>,
    q: nat,
)
    requires
        0 <= i,
        t.len() == i + q * segment_arity(kind_of(st)),
        forall|j: int| i <= j < t.len() ==> !is_shape_command(#[trigger] t[j]),
    ensures
        shape_spec(t, i, st, segs).1 is None,
        shape_spec(t, i, st, segs).0.len() == segs.len() + q,
        shape_spec(t, i, st, segs).0.take(segs.len() as int) == segs,
        forall|k: int|
            0 <= k < q ==> #[trigger] shape_spec(t, i, st, segs).0[segs.len() + k] == (SegmentModel {
                kind: kind_of(st),
                numbers: t.subrange(
                    i + k * segment_arity(kind_of(st)),
                    i + (k + 1) * segment_arity(kind_of(st)),
                ),
            }),
    decreases q,
{
    let n = segment_arity(kind_of(st)) as int;
    let r = shape_spec(t, i, st, segs).0;
    if q == 0 {
        assert(t.len() == i);
        assert(segs.take(segs.len() as int) =~= segs);
    } else {
        assert(n >= 2);
        assert(q * n >= n) by (nonlinear_arith)
            requires
                q >= 1,
                n >= 2,
        ;
        assert(!is_shape_command(t[i]));
        let seg0 = SegmentModel { kind: kind_of(st), numbers: t.subrange(i, i + n) };
        let segs1 = segs.push(seg0);
        assert(t.len() == (i + n) + (q - 1) * n) by (nonlinear_arith)
            requires
                t.len() == i + q * n,
                q >= 1,
        ;
        assert(shape_spec(t, i, st, segs) == shape_spec(t, i + n, st, segs1));
        law_shape_type_persists(t, i + n, st, segs1, (q - 1) as nat);
        assert(r.take(segs.len() as int) =~= segs) by {
            assert(r.take(segs1.len() as int) == segs1);
            assert forall|j: int| 0 <= j < segs.len() implies r[j] == segs[j] by {
                assert(r.take(segs1.len() as int)[j] == segs1[j]);
            }
        }
        assert forall|k: int| 0 <= k < q implies #[trigger] r[segs.len() + k] == (SegmentModel {
            kind: kind_of(st),
            numbers: t.subrange(i + k * n, i + (k + 1) * n),
        }) by {
            if k == 0 {
                assert(r.take(segs1.len() as int)[segs.len() as int] == segs1[segs.len() as int]);
                assert(0 * n == 0 && (0 + 1) * n == n) by (nonlinear_arith);
            } else {
                assert(r[segs1.len() + (k - 1)] == (SegmentModel {
                    kind: kind_of(st),
                    numbers: t.subrange((i + n) + (k - 1) * n, (i + n) + (k - 1 + 1) * n),
                }));
                assert(n + (k - 1) * n == k * n && n + k * n == (k + 1) * n) by (nonlinear_arith);
            }
        }
    }
}

/// The segment type that a command word sets: `m` move, `l` line, `b` curve, `a` arc, and
/// `c` (which also closes the shape) move.
pub open spec fn command_type(w: Seq<char>) -> Option<ShapeSegmentType> {
    if w == seq!['m'] || w == seq!['c'] {
        Some(ShapeSegmentType::Move)
    } else if w == seq!['l'] {
        Some(ShapeSegmentType::Line)
    } else if w == seq!['b'] {
        Some(ShapeSegmentType::Curve)
    } else if w == seq!['a'] {
        Some(ShapeSegmentType::Arc)
    } else {
        None
    }
}

/// The segments before the words after a command: those read before, and for `c` a close
/// segment after them.
pub open spec fn segments_after_command(w: Seq<char>, segs: Seq<SegmentModel>) -> Seq<SegmentModel> {
    if w == seq!['c'] {
        segs.push(SegmentModel { kind: SegmentKind::Close, numbers: Seq::empty() })
    } else {
        segs
    }
}

/// A command word sets the segment type for the words after it, whatever type was in force
/// before: a command at word `i` followed by `q` segments' worth of other words gives (after
/// a close segment, for `c`) `q` segments of the type it sets, with those words as numbers in
/// turn, and no error.
pub proof fn law_shape_command_sets_type(
    t: Seq<Seq<char>>,
    i: int,
    st: ShapeSegmentType,
    segs: Seq<SegmentModel>,
    q: nat,
)
    requires
        0 <= i < t.len(),
        is_shape_command(t[i]),
        t.len() == i + 1 + q * segment_arity(kind_of(command_type(t[i])->0)),
        forall|j: int| i < j < t.len() ==> !is_shape_command(#[trigger] t[j]),
    ensures
        shape_spec(t, i, st, segs).1 is None,
        shape_spec(t, i, st, segs).0.len() == segments_after_command(t[i], segs).len() + q,
        shape_spec(t, i, st, segs).0.take(segments_after_command(t[i], segs).len() as int)
            == segments_after_command(t[i], segs),
        forall|k: int|
            0 <= k < q ==> #[trigger] shape_spec(t, i, st, segs).0[segments_after_command(t[i], segs).len() + k]
                == (SegmentModel {
                kind: kind_of(command_type(t[i])->0),
                numbers: t.subrange(
                    i + 1 + k * segment_arity(kind_of(command_type(t[i])->0)),
                    i + 1 + (k + 1) * segment_arity(kind_of(command_type(t[i])->0)),
                ),
            }),
{
    let st2 = command_type(t[i])->0;
    let pre = segments_after_command(t[i], segs);
    assert(seq!['l'][0] != seq!['m'][0]);
    assert(seq!['b'][0] != seq!['m'][0]);
    assert(seq!['b'][0] != seq!['l'][0]);
    assert(seq!['a'][0] != seq!['m'][0]);
    assert(seq!['a'][0] != seq!['l'][0]);
    assert(seq!['a'][0] != seq!['b'][0]);
    assert(seq!['c'][0] != seq!['m'][0]);
    assert(seq!['c'][0] != seq!['l'][0]);
    assert(seq!['c'][0] != seq!['b'][0]);
    assert(seq!['c'][0] != seq!['a'][0]);
    if t[i] == seq!['m'] {
        assert(shape_spec(t, i, st, segs) == shape_spec(t, i + 1, st2, pre));
    } else if t[i] == seq!['l'] {
        assert(shape_spec(t, i, st, segs) == shape_spec(t, i + 1, st2, pre));
    } else if t[i] == seq!['b'] {
        assert(shape_spec(t, i, st, segs) == shape_spec(t, i + 1, st2, pre));
    } else if t[i] == seq!['a'] {
        assert(shape_spec(t, i, st, segs) == shape_spec(t, i + 1, st2, pre));
    } else {
        assert(t[i] == seq!['c']);
        assert(shape_spec(t, i, st, segs) == shape_spec(t, i + 1, st2, pre));
    }
    law_shape_type_persists(t, i + 1, st2, pre, q);
}

/// The numbers of points, x and y in turn; a word left over without its pair is the error
/// `Points incomplete (leftover: '<word>')!` (beside the numbers before it).
pub open spec fn points_spec(t: Seq<Seq<char>>) -> (Seq<Seq<char>>, Option<Seq<char>>) {
    if t.len() % 2 == 0 {
        (t, None)
    } else {
        (t.drop_last(), Some("Points incomplete (leftover: '"@ + t.last() + "')!"@))
    }
}

/// What a geometry gives in mode `mode`: its object, or, where the words do not fit, no
/// object and the error.
pub open spec fn geometries_spec(data: Seq<char>, mode: Mode) -> (Seq<ObjectModel>, Option<
    Seq<char>,
>) {
    match mode {
        Mode::Text => (seq![ObjectModel::GeometryText(data)], None),
        Mode::Points => {
            let (ns, e) = points_spec(ws_tokens(data));
            match e {
                None => (seq![ObjectModel::GeometryPoints(ns)], None),
                Some(_) => (Seq::empty(), e),
            }
        },
        Mode::Shape => {
            let (segs, e) = shape_spec(ws_tokens(data), 0, ShapeSegmentType::Move, Seq::empty());
            match e {
                None => (seq![ObjectModel::GeometryShape(segs)], None),
                Some(_) => (Seq::empty(), e),
            }
        },
    }
}

/// Copies of `t[from..to]`.
fn copy_range(t: &Vec<String>, from: usize, to: usize) -> (r: Vec<String>)
    requires
        from <= to <= t@.len(),
    ensures
        texts(r@) == texts(t@).subrange(from as int, to as int),
{
    let mut out: Vec<String> = Vec::new();
    let mut j = from;
    while j < to
        invariant
            from <= j <= to <= t@.len(),
            texts(out@) == texts(t@).subrange(from as int, j as int),
        decreases to - j,
    {
        let ghost before = out@;
        let c = t[j].clone();
        assert(c@ == t@[j as int]@);
        out.push(c);
        assert(texts(out@) =~= texts(before).push(c@));
        assert(texts(t@).subrange(from as int, j + 1) =~= texts(t@).subrange(from as int, j as int).push(
            texts(t@)[j as int],
        ));
        j = j + 1;
    }
    out
}

fn kind_of_exec(st: ShapeSegmentType) -> (k: SegmentKind)
    ensures
        k == kind_of(st),
{
    match st {
        ShapeSegmentType::Move => SegmentKind::Move,
        ShapeSegmentType::Line => SegmentKind::Line,
        ShapeSegmentType::Curve => SegmentKind::Curve,
        ShapeSegmentType::Arc => SegmentKind::Arc,
    }
}

fn arity_exec(k: SegmentKind) -> (n: usize)
    ensures
        n == segment_arity(k),
{
    match k {
        SegmentKind::Move => 2,
        SegmentKind::Line => 2,
        SegmentKind::Curve => 6,
        SegmentKind::Arc => 3,
        SegmentKind::Close => 0,
    }
}

/// Reads the segments of a shape (see `shape_spec`).
fn shape_exec(t: &Vec<String>) -> (r: (Vec<SegmentData>, Option<String>))
    ensures
        segments(r.0@) == shape_spec(texts(t@), 0, ShapeSegmentType::Move, Seq::empty()).0,
        match shape_spec(texts(t@), 0, ShapeSegmentType::Move, Seq::empty()).1 {
            None => r.1 is None,
            Some(m) => r.1 matches Some(x) && x@ == m,
        },
{
    let ghost tt = texts(t@);
    let mut segs: Vec<SegmentData> = Vec::new();
    let mut st = ShapeSegmentType::Move;
    let mut i: usize = 0;
    let len = t.len();
    assert(segments(segs@) =~= Seq::<SegmentModel>::empty());
    while i < len
        invariant
            i <= len,
            len == t@.len(),
            tt == texts(t@),
            shape_spec(tt, 0, ShapeSegmentType::Move, Seq::empty()) == shape_spec(
                tt,
                i as int,
                st,
                segments(segs@),
            ),
        decreases len - i,
    {
        let w = t[i].as_str();
        assert(w@ == tt[i as int]);
        proof {
            reveal_strlit("m");
            reveal_strlit("l");
            reveal_strlit("b");
            reveal_strlit("a");
            reveal_strlit("c");
            assert("m"@ =~= seq!['m']);
            assert("l"@ =~= seq!['l']);
            assert("b"@ =~= seq!['b']);
            assert("a"@ =~= seq!['a']);
            assert("c"@ =~= seq!['c']);
        }
        if str_eq(w, "m") {
            st = ShapeSegmentType::Move;
            i = i + 1;
        } else if str_eq(w, "l") {
            st = ShapeSegmentType::Line;
            i = i + 1;
        } else if str_eq(w, "b") {
            st = ShapeSegmentType::Curve;
            i = i + 1;
        } else if str_eq(w, "a") {
            st = ShapeSegmentType::Arc;
            i = i + 1;
        } else if str_eq(w, "c") {
            let ghost before = segs@;
            let seg = SegmentData { kind: SegmentKind::Close, numbers: Vec::new() };
            assert(seg@ == SegmentModel { kind: SegmentKind::Close, numbers: Seq::empty() }) by {
                assert(texts(seg.numbers@) =~= Seq::<Seq<char>>::empty());
            }
            segs.push(seg);
            assert(segments(segs@) =~= segments(before).push(seg@));
            st = ShapeSegmentType::Move;
            i = i + 1;
        } else {
            let kind = kind_of_exec(st);
            let n = arity_exec(kind);
            let ghost before = segs@;
            if n <= len - i {
                let numbers = copy_range(t, i, i + n);
                let seg = SegmentData { kind, numbers };
                segs.push(seg);
                assert(segments(segs@) =~= segments(before).push(seg@));
                i = i + n;
            } else {
                let numbers = copy_range(t, i, len);
                let seg = SegmentData { kind, numbers };
                segs.push(seg);
                assert(segments(segs@) =~= segments(before).push(seg@));
                let mut text = String::new();
                text.append("Invalid ");
                text.append(kind.number_label(len - i));
                text.append(" ''!");
                proof {
                    assert(tt[i as int] != seq!['m']);
                    assert(tt[i as int] != seq!['l']);
                    assert(tt[i as int] != seq!['b']);
                    assert(tt[i as int] != seq!['a']);
                    assert(tt[i as int] != seq!['c']);
                    assert(seg@ == SegmentModel { kind, numbers: tt.subrange(i as int, tt.len() as int) });
                    assert(text@ =~= missing_number_text(kind, tt.len() - i));
                    assert(shape_spec(tt, i as int, st, segments(before)) == (
                        segments(before).push(seg@),
                        Some(missing_number_text(kind, tt.len() - i)),
                    ));
                }
                return (segs, Some(text));
            }
        }
    }
    (segs, None)
}

/// Reads a geometry into an object, by the mode: the text itself, the numbers of points, or
/// the segments of a shape (numbers as their texts). Where the words do not fit, no object is
/// added, and the error comes.
pub fn parse_geometries(data: &str, objects: &mut Vec<EventObjectData>, mode: Mode) -> (r: Result<
    (),
    ParseError,
>)
    ensures
        object_models(final(objects)@) == object_models(old(objects)@) + geometries_spec(
            data@,
            mode,
        ).0,
        match geometries_spec(data@, mode).1 {
            None => r is Ok,
            Some(m) => r matches Err(e) && e.spec_msg() == m && e.spec_pos() is None
                && e.spec_source() is None && final(objects)@ == old(objects)@,
        },
{
    let ghost before = objects@;
    match mode {
        Mode::Text => {
            let o = EventObjectData::GeometryText(data.to_owned());
            objects.push(o);
            assert(object_models(objects@) =~= object_models(before) + seq![o@]);
            Ok(())
        },
        Mode::Points => {
            let mut words = ws_tokens_exec(data);
            let n = words.len();
            if n % 2 == 0 {
                let o = EventObjectData::GeometryPoints(words);
                objects.push(o);
                assert(object_models(objects@) =~= object_models(before) + seq![o@]);
                Ok(())
            } else {
                let ghost all = texts(words@);
                let leftover = words.pop().unwrap();
                assert(leftover@ == all.last());
                assert(object_models(objects@) =~= object_models(before) + Seq::<ObjectModel>::empty());
                let mut text = String::new();
                text.append("Points incomplete (leftover: '");
                text.append(leftover.as_str());
                text.append("')!");
                Err(ParseError::new(text.as_str()))
            }
        },
        Mode::Shape => {
            let words = ws_tokens_exec(data);
            let (segs, err) = shape_exec(&words);
            match err {
                None => {
                    let o = EventObjectData::GeometryShape(segs);
                    objects.push(o);
                    assert(object_models(objects@) =~= object_models(before) + seq![o@]);
                    Ok(())
                },
                Some(text) => {
                    assert(object_models(objects@) =~= object_models(before)
                        + Seq::<ObjectModel>::empty());
                    Err(ParseError::new(text.as_str()))
                },
            }
        },
    }
}

} // verus!
