//! Preparing raw SSB data for rendering: flattening all macros and inserting them into the
//! data of events.
use vstd::prelude::*;
use crate::error::{macro_error_text, MacroError, MacroErrorModel, ParseError};
use crate::maps::{AssocMap, StrMap};
use crate::text::{chars_of, string_of};
use crate::types::{Event, EventModel};
use crate::objects::{object_models, EventObjectData, ObjectModel};
use crate::parsers::geometries::{geometries_spec, parse_geometries};
use crate::parsers::tags::{
    has_mode_tag, is_tag_error, last_mode_value, law_last_mode_tag_sets_mode,
    law_only_mode_tags_set_mode, parse_tags, tags_spec, TagError,
};
use crate::text::{
    lemma_find_char_from, lemma_utf8_len_at_least_len, lemma_utf8_len_concat,
    lemma_utf8_len_single, lemma_utf8_len_subrange, starts_with, utf8_len, find_char_from,
};
use crate::utils::functions::event_iter::{
    escape_marked, lemma_next_chunk, lemma_replace_char, next_chunk, replace_all,
    restore_brackets, tag_close, EscapedText,
};
use crate::utils::state::{mode_of, Mode};
use crate::utils::functions::macros::{
    all_flat, error_name, extends, find_macro_ref, find_macro_ref_exec, flatten_rec, flatten_spec,
    is_flat, is_macro_name, law_flatten_error_name, law_flatten_outcome, max_steps, names,
    replace_range, FlattenState,
};

verus! {

/// Flattens the macros named by `keys`, one after another, each starting with no name being
/// flattened, adding to the flat macros `flat`: the flat macros, or the name whose flattening
/// failed with its error; `None` where a flattening does not end within `max_steps()` steps.
pub open spec fn flatten_all_spec(
    keys: Seq<Seq<char>>,
    macros: Map<Seq<char>, Seq<char>>,
    flat: Map<Seq<char>, Seq<char>>,
) -> Option<Result<Map<Seq<char>, Seq<char>>, (Seq<char>, MacroErrorModel)>>
    decreases keys.len(),
{
    if keys.len() == 0 {
        Some(Ok(flat))
    } else {
        match flatten_spec(keys[0], FlattenState { history: Set::empty(), flat }, macros, max_steps()) {
            None => None,
            Some((Err(e), _)) => Some(Err((keys[0], e))),
            Some((Ok(()), st)) => flatten_all_spec(keys.skip(1), macros, st.flat),
        }
    }
}

/// The message of a failed flattening of macro `name`.
pub open spec fn flatten_error_text(name: Seq<char>, e: MacroErrorModel) -> Seq<char> {
    "Flattening macro '"@ + name + "' caused error: "@ + macro_error_text(e)
}

/// Flattens every macro, in the order in which the macros were defined (see
/// `flatten_all_spec`); a failure is the error `Flattening macro '<name>' caused error:
/// <error>`, without position. `None` where a flattening does not end within `max_steps()`
/// steps.
pub fn flatten_macros(macros: &StrMap<String>) -> (r: Option<Result<StrMap<String>, ParseError>>)
    requires
        macros.wf(),
    ensures
        match flatten_all_spec(macros.key_seq(), macros.map(), Map::empty()) {
            None => r is None,
            Some(Ok(f)) => r matches Some(Ok(m)) && m.wf() && m.map() == f,
            Some(Err((name, e))) => r matches Some(Err(err)) && err.spec_msg()
                == flatten_error_text(name, e) && err.spec_pos() is None && err.spec_source() is None
                && is_macro_name(
                error_name(e),
            ),
        },
{
    proof {
        macros.lemma_key_seq_in_map();
        law_flatten_all_error_name(macros.key_seq(), macros.map(), Map::empty());
    }
    let mut flat: StrMap<String> = AssocMap::new();
    let n = macros.len();
    let ghost keys = macros.key_seq();
    proof {
        macros.lemma_key_seq_len();
    }
    assert(keys.skip(0) =~= keys);
    let mut i: usize = 0;
    while i < n
        invariant
            i <= n,
            n == keys.len(),
            n == macros.spec_len(),
            keys == macros.key_seq(),
            macros.wf(),
            flat.wf(),
            flatten_all_spec(keys, macros.map(), Map::empty()) == flatten_all_spec(
                keys.skip(i as int),
                macros.map(),
                flat.map(),
            ),
            flatten_all_spec(keys, macros.map(), Map::empty()) matches Some(Err((_, e)))
                ==> is_macro_name(error_name(e)),
        decreases n - i,
    {
        let key = macros.key_at(i);
        let mut history: Vec<String> = Vec::new();
        assert(names(history@) =~= Set::<Seq<char>>::empty());
        assert(keys.skip(i as int)[0] == key@);
        assert(keys.skip(i as int).skip(1) =~= keys.skip(i + 1));
        match flatten_rec(key.as_str(), &mut history, macros, &mut flat, u64::MAX) {
            None => {
                return None;
            },
            Some(Err(e)) => {
                let mut text = String::new();
                text.append("Flattening macro '");
                text.append(key.as_str());
                text.append("' caused error: ");
                let shown = e.debug_text();
                text.append(shown.as_str());
                return Some(Err(ParseError::new(text.as_str())));
            },
            Some(Ok(())) => {},
        }
        i = i + 1;
    }
    assert(keys.skip(n as int) =~= Seq::<Seq<char>>::empty());
    Some(Ok(flat))
}

/// Flattening macros in turn keeps the flat macros given, adds each macro named, and records
/// values that hold no macro reference.
pub proof fn law_flatten_all(
    keys: Seq<Seq<char>>,
    macros: Map<Seq<char>, Seq<char>>,
    flat: Map<Seq<char>, Seq<char>>,
)
    requires
        all_flat(flat),
    ensures
        flatten_all_spec(keys, macros, flat) matches Some(Ok(f)) ==> all_flat(f) && extends(
            flat,
            f,
        ) && forall|i: int| 0 <= i < keys.len() ==> #[trigger] f.contains_key(keys[i]),
    decreases keys.len(),
{
    if keys.len() > 0 {
        let st = FlattenState { history: Set::empty(), flat };
        if let Some((Ok(()), st2)) = flatten_spec(keys[0], st, macros, max_steps()) {
            law_flatten_outcome(keys[0], st, macros, max_steps());
            law_flatten_all(keys.skip(1), macros, st2.flat);
            if let Some(Ok(f)) = flatten_all_spec(keys, macros, flat) {
                assert(extends(flat, f)) by {
                    assert forall|k: Seq<char>| #[trigger] flat.contains_key(k) implies f.contains_key(
                        k,
                    ) && f[k] == flat[k] by {
                        assert(st2.flat.contains_key(k));
                    }
                }
                assert forall|i: int| 0 <= i < keys.len() implies #[trigger] f.contains_key(
                    keys[i],
                ) by {
                    if i > 0 {
                        assert(keys.skip(1)[i - 1] == keys[i]);
                    } else {
                        assert(st2.flat.contains_key(keys[0]));
                    }
                }
            }
        }
    }
}

/// Where every key names a macro, a failed flattening reports a name made of name characters
/// only (so that `{:?}` shows it within quotes, with nothing escaped).
pub proof fn law_flatten_all_error_name(
    keys: Seq<Seq<char>>,
    macros: Map<Seq<char>, Seq<char>>,
    flat: Map<Seq<char>, Seq<char>>,
)
    requires
        forall|i: int| 0 <= i < keys.len() ==> #[trigger] macros.contains_key(keys[i]),
    ensures
        flatten_all_spec(keys, macros, flat) matches Some(Err((_, e))) ==> is_macro_name(
            error_name(e),
        ),
    decreases keys.len(),
{
    if keys.len() > 0 {
        let st = FlattenState { history: Set::empty(), flat };
        assert(macros.contains_key(keys[0]));
        law_flatten_error_name(keys[0], st, macros, max_steps());
        if let Some((Ok(()), st2)) = flatten_spec(keys[0], st, macros, max_steps()) {
            assert forall|i: int| 0 <= i < keys.skip(1).len() implies #[trigger] macros.contains_key(
                keys.skip(1)[i],
            ) by {
                assert(keys.skip(1)[i] == keys[i + 1]);
            }
            law_flatten_all_error_name(keys.skip(1), macros, st2.flat);
        }
    }
}

/// Inserting inline macros, with `fuel` steps at most: while the data holds a macro
/// reference, the first one is replaced by the flat macro it names; the name of a macro that
/// is not there is the error. `None` where the steps do not suffice.
pub open spec fn insert_inline_macros(
    data: Seq<char>,
    flat: Map<Seq<char>, Seq<char>>,
    fuel: nat,
) -> Option<Result<Seq<char>, Seq<char>>>
    decreases fuel,
{
    if fuel == 0 {
        None
    } else {
        match find_macro_ref(data) {
            None => Some(Ok(data)),
            Some((start, end, name)) => if flat.contains_key(name) {
                insert_inline_macros(
                    data.take(start) + flat[name] + data.skip(end),
                    flat,
                    (fuel - 1) as nat,
                )
            } else {
                Some(Err(name))
            },
        }
    }
}

/// The data of an event for rendering: the base macro, where the event names one, before the
/// data, then the inline macros inserted. A missing base macro is an error at the start of
/// the event's line; a missing inline macro an error where the event data starts. `None`
/// where inserting does not end within `max_steps()` steps.
pub open spec fn expanded_event_data(e: EventModel, flat: Map<Seq<char>, Seq<char>>) -> Option<
    Result<Seq<char>, (Seq<char>, (usize, usize))>,
> {
    let base = match e.macro_name {
        None => Ok(e.data),
        Some(name) => if flat.contains_key(name) {
            Ok(flat[name] + e.data)
        } else {
            Err(name)
        },
    };
    match base {
        Err(name) => Some(
            Err(("Base macro '"@ + name + "' not found to insert!"@, (e.data_location.0, 0usize))),
        ),
        Ok(d) => match insert_inline_macros(d, flat, max_steps()) {
            None => None,
            Some(Ok(x)) => Some(Ok(x)),
            Some(Err(name)) => Some(
                Err(("Inline macro '"@ + name + "' not found to insert!"@, e.data_location)),
            ),
        },
    }
}

/// Inserts the inline macros into `data` (see `insert_inline_macros`).
fn insert_inline_macros_exec(data: Vec<char>, flat_macros: &StrMap<String>) -> (r: Option<
    Result<Vec<char>, String>,
>)
    requires
        flat_macros.wf(),
    ensures
        insert_inline_macros(data@, flat_macros.map(), max_steps()) == match r {
            Some(Ok(v)) => Some(Ok::<Seq<char>, Seq<char>>(v@)),
            Some(Err(name)) => Some(Err(name@)),
            None => None,
        },
{
    let mut cur = data;
    let mut fuel: u64 = u64::MAX;
    loop
        invariant
            flat_macros.wf(),
            insert_inline_macros(data@, flat_macros.map(), max_steps()) == insert_inline_macros(
                cur@,
                flat_macros.map(),
                fuel as nat,
            ),
        decreases fuel,
    {
        if fuel == 0 {
            return None;
        }
        match find_macro_ref_exec(&cur) {
            None => {
                return Some(Ok(cur));
            },
            Some((start, end)) => {
                let name = string_of(&cur, start + 2, end - 1);
                match flat_macros.get(name.as_str()) {
                    Some(value) => {
                        cur = replace_range(&cur, start, end, value.as_str());
                        fuel = fuel - 1;
                    },
                    None => {
                        return Some(Err(name));
                    },
                }
            },
        }
    }
}

/// The data of `event` with its macros inserted (see `expanded_event_data`).
pub fn expand_event_data(event: &Event, flat_macros: &StrMap<String>) -> (r: Option<
    Result<String, ParseError>,
>)
    requires
        flat_macros.wf(),
    ensures
        match expanded_event_data(event@, flat_macros.map()) {
            None => r is None,
            Some(Ok(x)) => r matches Some(Ok(s)) && s@ == x,
            Some(Err((msg, pos))) => r matches Some(Err(e)) && e.spec_msg() == msg && e.spec_pos()
                == Some(pos) && e.spec_source() is None,
        },
{
    let mut data = String::new();
    match &event.macro_name {
        Some(name) => match flat_macros.get(name.as_str()) {
            Some(value) => {
                data.append(value.as_str());
            },
            None => {
                let mut text = String::new();
                text.append("Base macro '");
                text.append(name.as_str());
                text.append("' not found to insert!");
                return Some(
                    Err(ParseError::new_with_pos(text.as_str(), (event.data_location.0, 0))),
                );
            },
        },
        None => {},
    }
    data.append(event.data.as_str());
    let v = chars_of(data.as_str());
    match insert_inline_macros_exec(v, flat_macros) {
        None => None,
        Some(Ok(x)) => {
            let s = string_of(&x, 0, x.len());
            assert(x@.subrange(0, x@.len() as int) =~= x@);
            Some(Ok(s))
        },
        Some(Err(name)) => {
            let mut text = String::new();
            text.append("Inline macro '");
            text.append(name.as_str());
            text.append("' not found to insert!");
            Some(Err(ParseError::new_with_pos(text.as_str(), event.data_location)))
        },
    }
}

/// Data with the inline macros inserted holds no macro reference.
pub proof fn law_inserted_data_is_flat(
    data: Seq<char>,
    flat: Map<Seq<char>, Seq<char>>,
    fuel: nat,
)
    ensures
        insert_inline_macros(data, flat, fuel) matches Some(Ok(x)) ==> is_flat(x),
    decreases fuel,
{
    if fuel > 0 {
        if let Some((start, end, name)) = find_macro_ref(data) {
            if flat.contains_key(name) {
                law_inserted_data_is_flat(
                    data.take(start) + flat[name] + data.skip(end),
                    flat,
                    (fuel - 1) as nat,
                );
            }
        }
    }
}

/// Reads the chunks of an escaped text from `pos` on (its marked text `m`, its text `t`), in
/// mode `mode`: tags set the mode, geometries are read in it. The objects, and the first error.
pub open spec fn objects_from(
    m: Seq<char>,
    t: Seq<char>,
    pos: int,
    mode: Mode,
    objs: Seq<ObjectModel>,
) -> (Seq<ObjectModel>, Option<TagError>)
    decreases m.len() - pos,
{
    if pos < 0 {
        (objs, None)
    } else {
        match next_chunk(m, pos) {
            None => (objs, None),
            Some((is_tag, from, to, next)) => {
                proof {
                    lemma_next_chunk(m, pos);
                }
                let chunk = t.subrange(from, to);
                if is_tag {
                    let (o, md, e) = tags_spec(chunk, Some(mode));
                    match e {
                        None => match md {
                            Some(m2) => objects_from(m, t, next, m2, objs + o),
                            None => (objs + o, None),
                        },
                        Some(err) => (objs + o, Some(err)),
                    }
                } else {
                    let (o, e) = geometries_spec(chunk, mode);
                    match e {
                        None => objects_from(m, t, next, mode, objs + o),
                        Some(msg) => (objs + o, Some((msg, None))),
                    }
                }
            },
        }
    }
}

/// The mode changes only through `mode` tags: a chunk read without error that is a geometry,
/// or a tag group without a `mode` tag, leaves the mode as it was, so the chunks after it are
/// read in the same mode, their objects following the chunk's objects.
pub proof fn law_mode_changes_only_by_mode_tags(
    m: Seq<char>,
    t: Seq<char>,
    pos: int,
    mode: Mode,
    objs: Seq<ObjectModel>,
)
    requires
        0 <= pos,
        next_chunk(m, pos) matches Some((is_tag, from, to, next)) && if is_tag {
            !has_mode_tag(t.subrange(from, to), 0) && tags_spec(t.subrange(from, to), Some(mode)).2 is None
        } else {
            geometries_spec(t.subrange(from, to), mode).1 is None
        },
    ensures
        next_chunk(m, pos) matches Some((is_tag, from, to, next)) ==> objects_from(m, t, pos, mode, objs)
            == objects_from(
            m,
            t,
            next,
            mode,
            objs + if is_tag {
                tags_spec(t.subrange(from, to), Some(mode)).0
            } else {
                geometries_spec(t.subrange(from, to), mode).0
            },
        ),
{
    lemma_next_chunk(m, pos);
    if let Some((is_tag, from, to, next)) = next_chunk(m, pos) {
        if is_tag {
            law_only_mode_tags_set_mode(t.subrange(from, to), 0, mode, Seq::empty());
        }
    }
}

/// After a tag group read without error, the chunks that follow are read in the mode that
/// its last `mode` tag names, or in the mode before it where it has none; its objects come
/// before theirs.
pub proof fn law_tag_group_sets_mode(
    m: Seq<char>,
    t: Seq<char>,
    pos: int,
    mode: Mode,
    objs: Seq<ObjectModel>,
)
    requires
        0 <= pos,
        next_chunk(m, pos) matches Some((is_tag, from, to, next)) && is_tag && tags_spec(
            t.subrange(from, to),
            Some(mode),
        ).2 is None,
    ensures
        next_chunk(m, pos) matches Some((is_tag, from, to, next)) ==> objects_from(m, t, pos, mode, objs)
            == objects_from(
            m,
            t,
            next,
            match last_mode_value(t.subrange(from, to), 0) {
                Some(v) => mode_of(v)->0,
                None => mode,
            },
            objs + tags_spec(t.subrange(from, to), Some(mode)).0,
        ),
{
    lemma_next_chunk(m, pos);
    if let Some((is_tag, from, to, next)) = next_chunk(m, pos) {
        law_last_mode_tag_sets_mode(t.subrange(from, to), 0, mode, Seq::empty());
    }
}

/// The objects of event data: its chunks (see `TagGeometryIterator`) read one after another,
/// starting in text mode; the objects, and the first error.
pub open spec fn objects_spec(data: Seq<char>) -> (Seq<ObjectModel>, Option<TagError>) {
    objects_from(
        escape_marked(data),
        restore_brackets(escape_marked(data)),
        0,
        Mode::Text,
        Seq::empty(),
    )
}

/// Replacing by something no longer in bytes never makes a text longer in bytes.
pub proof fn lemma_replace_all_len(s: Seq<char>, p: Seq<char>, r: Seq<char>)
    requires
        utf8_len(r) <= utf8_len(p),
    ensures
        utf8_len(replace_all(s, p, r)) <= utf8_len(s),
    decreases s.len(),
{
    if p.len() == 0 || s.len() == 0 {
    } else if starts_with(s, p) {
        lemma_replace_all_len(s.skip(p.len() as int), p, r);
        lemma_utf8_len_concat(r, replace_all(s.skip(p.len() as int), p, r));
        lemma_utf8_len_concat(s.take(p.len() as int), s.skip(p.len() as int));
        assert(s.take(p.len() as int) + s.skip(p.len() as int) =~= s);
    } else {
        lemma_replace_all_len(s.skip(1), p, r);
        lemma_utf8_len_concat(seq![s[0]], replace_all(s.skip(1), p, r));
        lemma_utf8_len_concat(seq![s[0]], s.skip(1));
        assert(seq![s[0]] + s.skip(1) =~= s);
    }
}

/// Resolving escapes never makes a text longer in bytes.
pub proof fn lemma_escaped_len(data: Seq<char>)
    ensures
        utf8_len(restore_brackets(escape_marked(data))) <= utf8_len(data),
        restore_brackets(escape_marked(data)).len() == escape_marked(data).len(),
{
    lemma_utf8_len_single('\x1B');
    lemma_utf8_len_single('\x02');
    lemma_utf8_len_single('\x03');
    lemma_utf8_len_single('\n');
    lemma_utf8_len_single('\\');
    lemma_utf8_len_single('[');
    lemma_utf8_len_single(']');
    lemma_utf8_len_at_least_len(seq!['\\', '\\']);
    lemma_utf8_len_at_least_len(seq!['\\', '[']);
    lemma_utf8_len_at_least_len(seq!['\\', ']']);
    lemma_utf8_len_at_least_len(seq!['\\', 'n']);
    let s1 = replace_all(data, seq!['\\', '\\'], seq!['\x1B']);
    let s2 = replace_all(s1, seq!['\\', '['], seq!['\x02']);
    let s3 = replace_all(s2, seq!['\\', ']'], seq!['\x03']);
    let s4 = replace_all(s3, seq!['\\', 'n'], seq!['\n']);
    let s5 = replace_all(s4, seq!['\x1B'], seq!['\\']);
    let s6 = replace_all(s5, seq!['\x02'], seq!['[']);
    lemma_replace_all_len(data, seq!['\\', '\\'], seq!['\x1B']);
    lemma_replace_all_len(s1, seq!['\\', '['], seq!['\x02']);
    lemma_replace_all_len(s2, seq!['\\', ']'], seq!['\x03']);
    lemma_replace_all_len(s3, seq!['\\', 'n'], seq!['\n']);
    lemma_replace_all_len(s4, seq!['\x1B'], seq!['\\']);
    lemma_replace_all_len(s5, seq!['\x02'], seq!['[']);
    lemma_replace_all_len(s6, seq!['\x03'], seq![']']);
    lemma_replace_char(s5, '\x02', '[');
    lemma_replace_char(s6, '\x03', ']');
}

/// Reads the objects of event data (see `objects_spec`): resolves its escapes, then reads its
/// tags and geometries in turn, in the text mode at first.
pub fn parse_objects(data: &str) -> (r: Result<Vec<EventObjectData>, ParseError>)
    requires
        utf8_len(data@) <= usize::MAX,
    ensures
        match objects_spec(data@).1 {
            None => r matches Ok(v) && object_models(v@) == objects_spec(data@).0,
            Some(err) => r matches Err(e) && is_tag_error(e, err),
        },
{
    let mut objects: Vec<EventObjectData> = Vec::new();
    let res = parse_objects_into(data, &mut objects);
    assert(object_models(Seq::<EventObjectData>::empty()) =~= Seq::<ObjectModel>::empty());
    assert(Seq::<ObjectModel>::empty() + objects_spec(data@).0 =~= objects_spec(data@).0);
    match res {
        Ok(()) => Ok(objects),
        Err(e) => Err(e),
    }
}

/// Reads the objects of event data as `parse_objects` does, appending them to `objects`; the
/// objects read before an error are kept, so that a caller can look at what came before it.
pub fn parse_objects_into(data: &str, objects: &mut Vec<EventObjectData>) -> (r: Result<(), ParseError>)
    requires
        utf8_len(data@) <= usize::MAX,
    ensures
        object_models(final(objects)@) == object_models(old(objects)@) + objects_spec(data@).0,
        match objects_spec(data@).1 {
            None => r is Ok,
            Some(err) => r matches Err(e) && is_tag_error(e, err),
        },
{
    let text = EscapedText::new(data);
    let ghost m = escape_marked(data@);
    let ghost t = restore_brackets(m);
    proof {
        lemma_escaped_len(data@);
    }
    let mut it = text.iter();
    let mut mode = Mode::Text;
    let ghost base = object_models(objects@);
    assert(base + Seq::<ObjectModel>::empty() =~= base);
    assert(object_models(objects@).skip(base.len() as int) =~= Seq::<ObjectModel>::empty());
    loop
        invariant
            it.wf(),
            it.spec_source().spec_marked() == m,
            it.spec_source().spec_text() == t,
            m == escape_marked(data@),
            t == restore_brackets(m),
            t.len() == m.len(),
            utf8_len(t) <= usize::MAX,
            base == object_models(old(objects)@),
            object_models(objects@) == base + object_models(objects@).skip(base.len() as int),
            base.len() <= object_models(objects@).len(),
            objects_spec(data@) == objects_from(
                m,
                t,
                it.spec_pos() as int,
                mode,
                object_models(objects@).skip(base.len() as int),
            ),
        decreases m.len() - it.spec_pos(),
    {
        let ghost pos = it.spec_pos() as int;
        let ghost acc = object_models(objects@).skip(base.len() as int);
        proof {
            lemma_next_chunk(m, pos);
        }
        match it.next() {
            None => {
                return Ok(());
            },
            Some((is_tag, chunk)) => {
                proof {
                    let (_, from, to, _) = next_chunk(m, pos)->0;
                    lemma_utf8_len_subrange(t, from, to);
                }
                if is_tag {
                    let mut md = Some(mode);
                    let res = parse_tags(chunk, objects, &mut md);
                    let ghost o = tags_spec(chunk@, Some(mode)).0;
                    assert(object_models(objects@).skip(base.len() as int) =~= acc + o);
                    match res {
                        Ok(()) => {
                            assert(object_models(objects@) =~= base + (acc + o));
                            match md {
                                Some(m2) => {
                                    mode = m2;
                                },
                                None => {
                                    return Ok(());
                                },
                            }
                        },
                        Err(e) => {
                            return Err(e);
                        },
                    }
                } else {
                    let res = parse_geometries(chunk, objects, mode);
                    let ghost o = geometries_spec(chunk@, mode).0;
                    assert(object_models(objects@).skip(base.len() as int) =~= acc + o);
                    match res {
                        Ok(()) => {
                            assert(object_models(objects@) =~= base + (acc + o));
                        },
                        Err(e) => {
                            return Err(e);
                        },
                    }
                }
            },
        }
    }
}

} // verus!
