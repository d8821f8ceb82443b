//! Iteration over event data: tags and geometries, and the tags within a tag group.
use vstd::prelude::*;
use crate::text::{
    chars_of, find_char, find_char_from, find_char_exec, lemma_find_char_from,
    lemma_utf8_len_at_least_len, lemma_utf8_len_subrange, starts_with, starts_with_at, utf8_len,
    utf8_len_exec,
};

verus! {

/// `s` with every occurrence of `p` (left to right, not overlapping) replaced by `r`,
/// as `str::replace` does.
pub open spec fn replace_all(s: Seq<char>, p: Seq<char>, r: Seq<char>) -> Seq<char>
    decreases s.len(),
{
    if p.len() == 0 || s.len() == 0 {
        s
    } else if starts_with(s, p) {
        r + replace_all(s.skip(p.len() as int), p, r)
    } else {
        seq![s[0]] + replace_all(s.skip(1), p, r)
    }
}

/// `v` with every occurrence of `p` replaced by `r`.
pub fn replace_all_exec(v: &Vec<char>, p: &Vec<char>, r: &Vec<char>) -> (out: Vec<char>)
    requires
        p@.len() > 0,
    ensures
        out@ == replace_all(v@, p@, r@),
{
    let mut out: Vec<char> = Vec::new();
    let mut i: usize = 0;
    assert(v@.skip(0) =~= v@);
    while i < v.len()
        invariant
            i <= v@.len(),
            p@.len() > 0,
            out@ + replace_all(v@.skip(i as int), p@, r@) == replace_all(v@, p@, r@),
        decreases v.len() - i,
    {
        let ghost rest = v@.skip(i as int);
        if starts_with_at(v, i, p) {
            let ghost before = out@;
            let mut j: usize = 0;
            while j < r.len()
                invariant
                    j <= r@.len(),
                    out@ == before + r@.take(j as int),
                decreases r.len() - j,
            {
                out.push(r[j]);
                j = j + 1;
            }
            assert(r@.take(r@.len() as int) =~= r@);
            assert(rest.skip(p@.len() as int) =~= v@.skip(i + p@.len()));
            assert(out@ + replace_all(v@.skip(i + p@.len()), p@, r@) =~= before + replace_all(
                rest,
                p@,
                r@,
            ));
            i = i + p.len();
        } else {
            let ghost before = out@;
            out.push(v[i]);
            assert(rest.skip(1) =~= v@.skip(i + 1));
            assert(rest[0] == v@[i as int]);
            assert(out@ + replace_all(v@.skip(i + 1), p@, r@) =~= before + replace_all(
                rest,
                p@,
                r@,
            ));
            i = i + 1;
        }
    }
    assert(v@.skip(i as int) =~= Seq::<char>::empty());
    assert(out@ + Seq::<char>::empty() =~= out@);
    out
}

/// Replacing one character by another character changes only the characters replaced.
pub proof fn lemma_replace_char(s: Seq<char>, a: char, b: char)
    ensures
        replace_all(s, seq![a], seq![b]).len() == s.len(),
        forall|i: int|
            0 <= i < s.len() ==> #[trigger] replace_all(s, seq![a], seq![b])[i] == if s[i]
                == a {
                b
            } else {
                s[i]
            },
    decreases s.len(),
{
    if s.len() > 0 {
        lemma_replace_char(s.skip(1), a, b);
        let t = replace_all(s, seq![a], seq![b]);
        let rest = replace_all(s.skip(1), seq![a], seq![b]);
        if starts_with(s, seq![a]) {
            assert(t == seq![b] + rest);
            assert(s.take(1)[0] == s[0]);
        } else {
            assert(t == seq![s[0]] + rest);
            assert(s[0] != a) by {
                if s[0] == a {
                    assert(s.take(1) =~= seq![a]);
                }
            }
        }
        assert forall|i: int| 0 <= i < s.len() implies #[trigger] t[i] == if s[i] == a {
            b
        } else {
            s[i]
        } by {
            if i > 0 {
                assert(t[i] == rest[i - 1]);
                assert(s.skip(1)[i - 1] == s[i]);
            }
        }
    }
}

/// The escaped source with tag brackets marked: `\\` stands for a backslash, `\[` and `\]`
/// for brackets that open or close no tag (held as the characters 0x02 and 0x03 here), and
/// `\n` for a line break.
pub open spec fn escape_marked(source: Seq<char>) -> Seq<char> {
    replace_all(
        replace_all(
            replace_all(
                replace_all(
                    replace_all(source, seq!['\\', '\\'], seq!['\x1B']),
                    seq!['\\', '['],
                    seq!['\x02'],
                ),
                seq!['\\', ']'],
                seq!['\x03'],
            ),
            seq!['\\', 'n'],
            seq!['\n'],
        ),
        seq!['\x1B'],
        seq!['\\'],
    )
}

/// The marked text with the escaped brackets restored as brackets.
pub open spec fn restore_brackets(marked: Seq<char>) -> Seq<char> {
    replace_all(replace_all(marked, seq!['\x02'], seq!['[']), seq!['\x03'], seq![']'])
}

/// Event data with escapes resolved, and the brackets that open or close tags known.
pub struct EscapedText {
    text: String,
    marked: Vec<char>,
}

impl EscapedText {
    /// Well-formed: the text is the marked text with escaped brackets restored.
    pub closed spec fn wf(&self) -> bool {
        &&& self.text@ == restore_brackets(self.marked@)
        &&& self.marked@.len() <= usize::MAX
    }

    /// The text, escapes resolved.
    pub closed spec fn spec_text(&self) -> Seq<char> {
        self.text@
    }

    /// The text with the brackets of tags as `[` and `]`, and the others marked.
    pub closed spec fn spec_marked(&self) -> Seq<char> {
        self.marked@
    }

    /// Resolves the escapes of `source`.
    pub fn new(source: &str) -> (e: Self)
        ensures
            e.wf(),
            e.spec_marked() == escape_marked(source@),
            e.spec_text() == restore_brackets(escape_marked(source@)),
    {
        let s = chars_of(source);
        let p1 = vec!['\\', '\\'];
        let r1 = vec!['\x1B'];
        let p2 = vec!['\\', '['];
        let r2 = vec!['\x02'];
        let p3 = vec!['\\', ']'];
        let r3 = vec!['\x03'];
        let p4 = vec!['\\', 'n'];
        let r4 = vec!['\n'];
        let p5 = vec!['\x1B'];
        let r5 = vec!['\\'];
        let p6 = vec!['\x02'];
        let r6 = vec!['['];
        let p7 = vec!['\x03'];
        let r7 = vec![']'];
        assert(p1@ =~= seq!['\\', '\\'] && r1@ =~= seq!['\x1B']);
        assert(p2@ =~= seq!['\\', '['] && r2@ =~= seq!['\x02']);
        assert(p3@ =~= seq!['\\', ']'] && r3@ =~= seq!['\x03']);
        assert(p4@ =~= seq!['\\', 'n'] && r4@ =~= seq!['\n']);
        assert(p5@ =~= seq!['\x1B'] && r5@ =~= seq!['\\']);
        assert(p6@ =~= seq!['\x02'] && r6@ =~= seq!['[']);
        assert(p7@ =~= seq!['\x03'] && r7@ =~= seq![']']);
        let s1 = replace_all_exec(&s, &p1, &r1);
        let s2 = replace_all_exec(&s1, &p2, &r2);
        let s3 = replace_all_exec(&s2, &p3, &r3);
        let s4 = replace_all_exec(&s3, &p4, &r4);
        let marked = replace_all_exec(&s4, &p5, &r5);
        let t1 = replace_all_exec(&marked, &p6, &r6);
        let t2 = replace_all_exec(&t1, &p7, &r7);
        let text = crate::text::string_of(&t2, 0, t2.len());
        assert(t2@.subrange(0, t2@.len() as int) =~= t2@);
        let length = marked.len();
        assert(marked@.len() == length);
        EscapedText { text, marked }
    }

    /// An iterator over the tags and geometries of the text, from its start.
    pub fn iter(&self) -> (it: TagGeometryIterator<'_>)
        requires
            self.wf(),
        ensures
            it.wf(),
            it.spec_source() == *self,
            it.spec_pos() == 0,
    {
        TagGeometryIterator { source: self, pos: 0 }
    }

    /// All the tags (`true`) and geometries (`false`) of the text, in order: what a run of
    /// `iter` yields to its end, `chunks_from` from the start. The text is left as it was, so
    /// every run over it yields the same.
    pub fn chunks(&self) -> (r: Vec<(bool, &str)>)
        requires
            self.wf(),
        ensures
            chunk_views(r@) == chunks_from(self.spec_marked(), self.spec_text(), 0),
    {
        let ghost m = self.spec_marked();
        let ghost t = self.spec_text();
        let mut it = self.iter();
        let mut out: Vec<(bool, &str)> = Vec::new();
        assert(chunk_views(out@) + chunks_from(m, t, 0) =~= chunks_from(m, t, 0));
        loop
            invariant
                it.wf(),
                it.spec_source() == *self,
                m == self.spec_marked(),
                t == self.spec_text(),
                chunk_views(out@) + chunks_from(m, t, it.spec_pos() as int) == chunks_from(m, t, 0),
            decreases m.len() - it.spec_pos(),
        {
            let ghost pos = it.spec_pos() as int;
            proof {
                lemma_next_chunk(m, pos);
                law_next_yields_first_chunk(m, t, pos);
            }
            match it.next() {
                None => {
                    assert(chunk_views(out@) + chunks_from(m, t, pos) =~= chunk_views(out@));
                    return out;
                },
                Some(c) => {
                    let ghost before = out@;
                    out.push(c);
                    assert(chunk_views(out@) =~= chunk_views(before) + seq![(c.0, c.1@)]);
                    assert(chunk_views(out@) + chunks_from(m, t, it.spec_pos() as int)
                        =~= chunk_views(before) + chunks_from(m, t, pos));
                },
            }
        }
    }
}

/// The chunks yielded, as flags and character sequences.
pub open spec fn chunk_views(v: Seq<(bool, &str)>) -> Seq<(bool, Seq<char>)> {
    v.map_values(|c: (bool, &str)| (c.0, c.1@))
}

/// The index of the `]` that closes a tag, searching from `i` with `depth` nested tags open.
pub open spec fn tag_close(m: Seq<char>, i: int, depth: nat) -> Option<int>
    decreases m.len() - i,
{
    if i < 0 || i >= m.len() {
        None
    } else if m[i] == '[' {
        tag_close(m, i + 1, depth + 1)
    } else if m[i] == ']' {
        if depth == 0 {
            Some(i)
        } else {
            tag_close(m, i + 1, (depth - 1) as nat)
        }
    } else {
        tag_close(m, i + 1, depth)
    }
}

pub proof fn lemma_tag_close_range(m: Seq<char>, i: int, depth: nat)
    requires
        0 <= i,
    ensures
        tag_close(m, i, depth) matches Some(e) ==> i <= e < m.len() && m[e] == ']',
    decreases m.len() - i,
{
    if 0 <= i < m.len() {
        if m[i] == '[' {
            lemma_tag_close_range(m, i + 1, depth + 1);
        } else if m[i] == ']' {
            if depth > 0 {
                lemma_tag_close_range(m, i + 1, (depth - 1) as nat);
            }
        } else {
            lemma_tag_close_range(m, i + 1, depth);
        }
    }
}

/// The next chunk of marked text `m` from `pos`: whether it is a tag, where its content starts
/// and ends, and where the next chunk starts.
///
/// A tag starts at a `[` and runs to the `]` that closes it (tags nest), or to the end of the
/// text; a geometry runs to the next `[` or to the end.
pub open spec fn next_chunk(m: Seq<char>, pos: int) -> Option<(bool, int, int, int)> {
    if pos >= m.len() {
        None
    } else {
        match find_char_from(m, '[', pos) {
            Some(t) => if t == pos {
                match tag_close(m, pos + 1, 0) {
                    Some(e) => Some((true, pos + 1, e, e + 1)),
                    None => Some((true, pos + 1, m.len() as int, m.len() as int)),
                }
            } else {
                Some((false, pos, t, t))
            },
            None => Some((false, pos, m.len() as int, m.len() as int)),
        }
    }
}

/// The chunks of marked text `m` after `pos` lie after it, within the text.
pub proof fn lemma_next_chunk(m: Seq<char>, pos: int)
    requires
        0 <= pos,
    ensures
        next_chunk(m, pos) matches Some((_, from, to, next)) ==> pos < next <= m.len() && pos
            <= from <= to <= m.len(),
{
    if pos < m.len() {
        lemma_find_char_from(m, '[', pos);
        if let Some(t) = find_char_from(m, '[', pos) {
            if t == pos {
                lemma_tag_close_range(m, pos + 1, 0);
            }
        }
    }
}

/// The chunks of an escaped text from `pos` on (its marked text `m`, its text `t`): whether
/// each is a tag, and its content; what a `TagGeometryIterator` yields from `pos`, which
/// depends on the text alone.
pub open spec fn chunks_from(m: Seq<char>, t: Seq<char>, pos: int) -> Seq<(bool, Seq<char>)>
    decreases m.len() - pos,
{
    if pos < 0 {
        Seq::empty()
    } else {
        match next_chunk(m, pos) {
            None => Seq::empty(),
            Some((is_tag, from, to, next)) => {
                proof {
                    lemma_next_chunk(m, pos);
                }
                seq![(is_tag, t.subrange(from, to))] + chunks_from(m, t, next)
            },
        }
    }
}

/// A call of `next` yields the first of the chunks from the position, and leaves the rest.
pub proof fn law_next_yields_first_chunk(m: Seq<char>, t: Seq<char>, pos: int)
    requires
        0 <= pos,
    ensures
        next_chunk(m, pos) matches Some((is_tag, from, to, next)) ==> chunks_from(m, t, pos)
            == seq![(is_tag, t.subrange(from, to))] + chunks_from(m, t, next),
        next_chunk(m, pos) is None ==> chunks_from(m, t, pos) == Seq::<(bool, Seq<char>)>::empty(),
{
}

/// Once no chunk is left at a position, there is no next chunk there: `next` answers `None`
/// and keeps its position, so it answers `None` again on every later call.
pub proof fn law_end_is_final(m: Seq<char>, t: Seq<char>, pos: int)
    requires
        0 <= pos,
        chunks_from(m, t, pos).len() == 0,
    ensures
        next_chunk(m, pos) is None,
{
    law_next_yields_first_chunk(m, t, pos);
}

/// Every geometry chunk is non-empty and is followed by a tag or by the end.
pub proof fn law_chunk_structure(m: Seq<char>, t: Seq<char>, pos: int)
    requires
        0 <= pos,
        t.len() == m.len(),
    ensures
        forall|i: int|
            0 <= i < chunks_from(m, t, pos).len() && !(#[trigger] chunks_from(m, t, pos)[i]).0
                ==> chunks_from(m, t, pos)[i].1.len() > 0 && (i + 1 == chunks_from(m, t, pos).len()
                || chunks_from(m, t, pos)[i + 1].0),
    decreases m.len() - pos,
{
    let c = chunks_from(m, t, pos);
    if let Some((is_tag, from, to, next)) = next_chunk(m, pos) {
        lemma_next_chunk(m, pos);
        law_chunk_structure(m, t, next);
        let rest = chunks_from(m, t, next);
        assert(c == seq![(is_tag, t.subrange(from, to))] + rest);
        lemma_find_char_from(m, '[', pos);
        if !is_tag {
            assert(from == pos && to == next && to > from);
            if next < m.len() {
                lemma_find_char_from(m, '[', next);
                assert(m[next] == '[');
                assert(next_chunk(m, next) matches Some((tg, _, _, _)) && tg);
                assert(rest.len() > 0 && rest[0].0);
            } else {
                assert(rest.len() == 0);
            }
        }
        assert forall|i: int| 0 <= i < c.len() && !(#[trigger] c[i]).0 implies c[i].1.len() > 0 && (
        i + 1 == c.len() || c[i + 1].0) by {
            if i > 0 {
                assert(c[i] == rest[i - 1]);
                if i + 1 < c.len() {
                    assert(c[i + 1] == rest[i]);
                }
            }
        }
    }
}

/// Iterator over the tags (`true`) and geometries (`false`) of an escaped text.
pub struct TagGeometryIterator<'src> {
    source: &'src EscapedText,
    pos: usize,
}

impl<'src> TagGeometryIterator<'src> {
    /// Well-formed: the text is well-formed and the position lies in it.
    pub closed spec fn wf(&self) -> bool {
        &&& self.source.wf()
        &&& self.pos <= self.source.marked@.len()
    }

    /// The escaped text iterated over.
    pub closed spec fn spec_source(&self) -> EscapedText {
        *self.source
    }

    /// Where the next chunk starts.
    pub closed spec fn spec_pos(&self) -> nat {
        self.pos as nat
    }

    /// The next tag (its content, without brackets) or geometry.
    ///
    /// The text from the old position to the new one is the chunk returned, for a tag with
    /// its `[` before and, where the tag is closed, its `]` after.
    pub fn next(&mut self) -> (r: Option<(bool, &'src str)>)
        requires
            old(self).wf(),
        ensures
            final(self).wf(),
            final(self).spec_source() == old(self).spec_source(),
            match next_chunk(old(self).spec_source().spec_marked(), old(self).spec_pos() as int) {
                None => r is None && final(self).spec_pos() == old(self).spec_pos(),
                Some((is_tag, from, to, next)) => r matches Some((t, chunk)) && t == is_tag
                    && chunk@ == old(self).spec_source().spec_text().subrange(from, to)
                    && final(self).spec_pos() == next,
            },
            r matches Some((is_tag, chunk)) ==> {
                let text = old(self).spec_source().spec_text();
                let (old_pos, new_pos) = (old(self).spec_pos() as int, final(self).spec_pos() as int);
                &&& old_pos < new_pos
                &&& is_tag ==> text.subrange(old_pos, new_pos) == seq!['['] + chunk@
                    || text.subrange(old_pos, new_pos) == seq!['['] + chunk@ + seq![']']
                &&& !is_tag ==> text.subrange(old_pos, new_pos) == chunk@
            },
    {
        let m = &self.source.marked;
        let ghost text = self.source.text@;
        proof {
            let t1 = replace_all(m@, seq!['\x02'], seq!['[']);
            lemma_replace_char(m@, '\x02', '[');
            lemma_replace_char(t1, '\x03', ']');
        }
        if self.pos == m.len() {
            return None;
        }
        let pos = self.pos;
        let src: &'src EscapedText = self.source;
        match find_char_exec(m, '[', pos) {
            Some(t) => {
                if t == pos {
                    match tag_close_exec(m, pos + 1) {
                        Some(e) => {
                            proof {
                                lemma_tag_close_range(m@, pos + 1, 0);
                                assert(text.subrange(pos as int, e + 1) =~= seq!['['] + text.subrange(
                                    pos + 1,
                                    e as int,
                                ) + seq![']']);
                            }
                            let chunk = src.text.as_str().substring_char(pos + 1, e);
                            self.pos = e + 1;
                            Some((true, chunk))
                        },
                        None => {
                            proof {
                                assert(text.subrange(pos as int, m@.len() as int) =~= seq!['[']
                                    + text.subrange(pos + 1, m@.len() as int));
                            }
                            let chunk = src.text.as_str().substring_char(pos + 1, m.len());
                            self.pos = m.len();
                            Some((true, chunk))
                        },
                    }
                } else {
                    let chunk = src.text.as_str().substring_char(pos, t);
                    self.pos = t;
                    Some((false, chunk))
                }
            },
            None => {
                let chunk = src.text.as_str().substring_char(pos, m.len());
                self.pos = m.len();
                Some((false, chunk))
            },
        }
    }
}

/// The index of the `]` that closes a tag whose content starts at `from`.
fn tag_close_exec(m: &Vec<char>, from: usize) -> (r: Option<usize>)
    requires
        from <= m@.len(),
    ensures
        match r {
            Some(e) => tag_close(m@, from as int, 0) == Some(e as int),
            None => tag_close(m@, from as int, 0) is None,
        },
{
    let mut depth: usize = 0;
    let mut i = from;
    while i < m.len()
        invariant
            from <= i <= m@.len(),
            depth <= i - from,
            tag_close(m@, from as int, 0) == tag_close(m@, i as int, depth as nat),
        decreases m.len() - i,
    {
        if m[i] == '[' {
            depth = depth + 1;
        } else if m[i] == ']' {
            if depth == 0 {
                return Some(i);
            }
            depth = depth - 1;
        }
        i = i + 1;
    }
    None
}

/// The index of the first `;` at or after `i` that lies outside nested tags, counting
/// `depth` tags open at `i` (a `]` with none open is ignored).
pub open spec fn tag_separator(s: Seq<char>, i: int, depth: nat) -> Option<int>
    decreases s.len() - i,
{
    if i < 0 || i >= s.len() {
        None
    } else if s[i] == '[' {
        tag_separator(s, i + 1, depth + 1)
    } else if s[i] == ']' {
        tag_separator(
            s,
            i + 1,
            if depth > 0 {
                (depth - 1) as nat
            } else {
                0
            },
        )
    } else if s[i] == ';' && depth == 0 {
        Some(i)
    } else {
        tag_separator(s, i + 1, depth)
    }
}

pub proof fn lemma_tag_separator_range(s: Seq<char>, i: int, depth: nat)
    requires
        0 <= i,
    ensures
        tag_separator(s, i, depth) matches Some(k) ==> i <= k < s.len() && s[k] == ';',
    decreases s.len() - i,
{
    if 0 <= i < s.len() {
        if s[i] == '[' {
            lemma_tag_separator_range(s, i + 1, depth + 1);
        } else if s[i] == ']' {
            lemma_tag_separator_range(
                s,
                i + 1,
                if depth > 0 {
                    (depth - 1) as nat
                } else {
                    0
                },
            );
        } else if !(s[i] == ';' && depth == 0) {
            lemma_tag_separator_range(s, i + 1, depth);
        }
    }
}

/// The next tag token of text `s`, from character `pos_chars` (byte offset `pos`): where it
/// starts and ends, as character indices, and the character index of the next token.
///
/// The search for the separator starts `pos` characters into the text: the byte offset is
/// taken as a character count, as the text iterator is advanced by it.
pub open spec fn next_tag_token(s: Seq<char>, pos: int, pos_chars: int) -> Option<(int, int, int)> {
    if pos_chars >= s.len() {
        None
    } else {
        match tag_separator(s, pos, 0) {
            Some(k) => Some((pos_chars, k, k + 1)),
            None => Some((pos_chars, s.len() as int, s.len() as int)),
        }
    }
}

/// The name and the value (after the first `=`) of a tag token.
pub open spec fn split_tag_token(t: Seq<char>) -> (Seq<char>, Option<Seq<char>>) {
    match find_char(t, '=') {
        Some(a) => (t.take(a), Some(t.skip(a + 1))),
        None => (t, None),
    }
}

/// Iterator over the tags of a tag group, separated by `;`: their names and values.
pub struct TagsIterator<'src> {
    text: &'src str,
    chars: Vec<char>,
    pos: usize,
    pos_chars: usize,
}

impl<'src> TagsIterator<'src> {
    /// Well-formed: `pos` is the byte offset of character `pos_chars`.
    pub closed spec fn wf(&self) -> bool {
        &&& self.chars@ == self.text@
        &&& self.pos_chars <= self.chars@.len()
        &&& self.pos == utf8_len(self.chars@.take(self.pos_chars as int))
        &&& utf8_len(self.chars@) <= usize::MAX
    }

    /// The text iterated over.
    pub closed spec fn spec_text(&self) -> Seq<char> {
        self.text@
    }

    /// The byte offset of the next token.
    pub closed spec fn spec_pos(&self) -> nat {
        self.pos as nat
    }

    /// The character index of the next token.
    pub closed spec fn spec_pos_chars(&self) -> nat {
        self.pos_chars as nat
    }

    /// The byte offset is that of the character position.
    pub proof fn lemma_pos(&self)
        requires
            self.wf(),
        ensures
            self.spec_pos() == utf8_len(self.spec_text().take(self.spec_pos_chars() as int)),
            self.spec_pos_chars() <= self.spec_text().len(),
            utf8_len(self.spec_text()) <= usize::MAX,
    {
    }

    /// An iterator over the tags of `text`, from its start.
    pub fn new(text: &'src str) -> (it: Self)
        requires
            utf8_len(text@) <= usize::MAX,
        ensures
            it.wf(),
            it.spec_text() == text@,
            it.spec_pos() == 0,
            it.spec_pos_chars() == 0,
    {
        let chars = chars_of(text);
        assert(chars@.take(0) =~= Seq::<char>::empty());
        TagsIterator { text, chars, pos: 0, pos_chars: 0 }
    }

    /// The next tag: its name, and its value where it has one.
    pub fn next(&mut self) -> (r: Option<(&'src str, Option<&'src str>)>)
        requires
            old(self).wf(),
        ensures
            final(self).wf(),
            final(self).spec_text() == old(self).spec_text(),
            match next_tag_token(
                old(self).spec_text(),
                old(self).spec_pos() as int,
                old(self).spec_pos_chars() as int,
            ) {
                None => r is None && *final(self) == *old(self),
                Some((from, to, next)) => {
                    let (name, value) = split_tag_token(old(self).spec_text().subrange(from, to));
                    &&& r matches Some((n, v)) && n@ == name && match v {
                        Some(x) => value == Some(x@),
                        None => value is None,
                    }
                    &&& final(self).spec_pos_chars() == next
                }
            },
    {
        let len = self.chars.len();
        if self.pos_chars == len {
            return None;
        }
        let ghost s = self.chars@;
        let k_opt = tag_separator_exec(&self.chars, self.pos);
        let (from, to) = match k_opt {
            Some(k) => {
                proof {
                    lemma_tag_separator_range(s, self.pos as int, 0);
                    lemma_utf8_len_at_least_len(s.take(self.pos_chars as int));
                    lemma_utf8_len_subrange(s, 0, k + 1);
                    assert(s.subrange(0, k + 1) =~= s.take(k + 1));
                }
                let from = self.pos_chars;
                self.pos = utf8_len_exec(&self.chars, 0, k + 1);
                self.pos_chars = k + 1;
                (from, k)
            },
            None => {
                proof {
                    lemma_utf8_len_subrange(s, 0, len as int);
                    assert(s.subrange(0, len as int) =~= s.take(len as int));
                }
                let from = self.pos_chars;
                self.pos = utf8_len_exec(&self.chars, 0, len);
                self.pos_chars = len;
                (from, len)
            },
        };
        let token_start = from;
        let ghost token = s.subrange(from as int, to as int);
        let text: &'src str = self.text;
        match find_char_exec(&self.chars, '=', from) {
            Some(a) if a < to => {
                proof {
                    lemma_find_char_from(token, '=', 0);
                    assert(token[a - from] == '=');
                    assert forall|j: int| 0 <= j < a - from implies token[j] != '=' by {
                        assert(token[j] == s[from + j]);
                    }
                    assert(find_char(token, '=') == Some(a - from));
                    assert(token.take(a - from) =~= s.subrange(from as int, a as int));
                    assert(token.skip(a - from + 1) =~= s.subrange(a + 1, to as int));
                }
                let name = text.substring_char(token_start, a);
                let value = text.substring_char(a + 1, to);
                Some((name, Some(value)))
            },
            _ => {
                proof {
                    lemma_find_char_from(token, '=', 0);
                    assert forall|j: int| 0 <= j < token.len() implies token[j] != '=' by {
                        assert(token[j] == s[from + j]);
                    }
                }
                let name = text.substring_char(token_start, to);
                Some((name, None))
            },
        }
    }
}

/// The first separator of `s` at or after character `from` (see `tag_separator`).
fn tag_separator_exec(s: &Vec<char>, from: usize) -> (r: Option<usize>)
    ensures
        match r {
            Some(k) => tag_separator(s@, from as int, 0) == Some(k as int),
            None => tag_separator(s@, from as int, 0) is None,
        },
{
    let mut depth: usize = 0;
    let mut i = from;
    while i < s.len()
        invariant
            from <= i,
            i <= s@.len() || i == from,
            depth <= i - from,
            tag_separator(s@, from as int, 0) == tag_separator(s@, i as int, depth as nat),
        decreases s.len() - i,
    {
        let c = s[i];
        if c == '[' {
            depth = depth + 1;
        } else if c == ']' {
            if depth > 0 {
                depth = depth - 1;
            }
        } else if c == ';' && depth == 0 {
            return Some(i);
        }
        i = i + 1;
    }
    None
}

} // verus!
