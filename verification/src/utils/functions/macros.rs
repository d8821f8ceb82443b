//! Macros: references `${name}` in text, and flattening macros that refer to others.
use vstd::prelude::*;
use crate::error::{MacroError, MacroErrorModel};
use crate::maps::StrMap;
use crate::text::{chars_of, push_char, str_eq, string_of};

verus! {

/// A character allowed in a macro name: `[a-zA-Z0-9_-]`.
pub open spec fn is_name_char(c: char) -> bool {
    ('a' <= c && c <= 'z') || ('A' <= c && c <= 'Z') || ('0' <= c && c <= '9') || c == '_' || c
        == '-'
}

/// The end of the run of name characters that starts at `j`.
pub open spec fn name_end(s: Seq<char>, j: int) -> int
    decreases s.len() - j,
{
    if 0 <= j < s.len() && is_name_char(s[j]) {
        name_end(s, j + 1)
    } else {
        j
    }
}

/// A macro reference `${name}` (with a non-empty name) starts at `i`.
pub open spec fn macro_ref_at(s: Seq<char>, i: int) -> bool {
    &&& 0 <= i
    &&& i + 2 <= s.len()
    &&& s[i] == '$'
    &&& s[i + 1] == '{'
    &&& name_end(s, i + 2) > i + 2
    &&& name_end(s, i + 2) < s.len()
    &&& s[name_end(s, i + 2)] == '}'
}

/// The first start of a macro reference at or after `i`.
pub open spec fn find_macro_ref_from(s: Seq<char>, i: int) -> Option<int>
    decreases s.len() - i,
{
    if i < 0 || i >= s.len() {
        None
    } else if macro_ref_at(s, i) {
        Some(i)
    } else {
        find_macro_ref_from(s, i + 1)
    }
}

/// The first macro reference in `s`: its start, its end (after `}`) and the name.
pub open spec fn find_macro_ref(s: Seq<char>) -> Option<(int, int, Seq<char>)> {
    match find_macro_ref_from(s, 0) {
        Some(i) => Some((i, name_end(s, i + 2) + 1, s.subrange(i + 2, name_end(s, i + 2)))),
        None => None,
    }
}

/// `s` holds no macro reference.
pub open spec fn is_flat(s: Seq<char>) -> bool {
    find_macro_ref(s) is None
}

proof fn lemma_find_macro_ref_from(s: Seq<char>, i: int)
    ensures
        find_macro_ref_from(s, i) matches Some(k) ==> i <= k && macro_ref_at(s, k),
    decreases s.len() - i,
{
    if 0 <= i < s.len() && !macro_ref_at(s, i) {
        lemma_find_macro_ref_from(s, i + 1);
    }
}

proof fn lemma_name_end(s: Seq<char>, j: int)
    requires
        0 <= j <= s.len(),
    ensures
        j <= name_end(s, j) <= s.len(),
        forall|k: int| j <= k < name_end(s, j) ==> is_name_char(#[trigger] s[k]),
        name_end(s, j) < s.len() ==> !is_name_char(s[name_end(s, j)]),
    decreases s.len() - j,
{
    if j < s.len() && is_name_char(s[j]) {
        lemma_name_end(s, j + 1);
    }
}

fn is_name_char_exec(c: char) -> (r: bool)
    ensures
        r == is_name_char(c),
{
    (c >= 'a' && c <= 'z') || (c >= 'A' && c <= 'Z') || (c >= '0' && c <= '9') || c == '_' || c
        == '-'
}

/// The end of the run of name characters of `v` that starts at `j`.
fn name_end_exec(v: &Vec<char>, j: usize) -> (e: usize)
    requires
        j <= v@.len(),
    ensures
        e == name_end(v@, j as int),
{
    let mut k = j;
    while k < v.len() && is_name_char_exec(v[k])
        invariant
            j <= k <= v@.len(),
            name_end(v@, j as int) == name_end(v@, k as int),
        decreases v.len() - k,
    {
        k = k + 1;
    }
    k
}

/// The first macro reference in `v`, as its start and end (after `}`).
pub fn find_macro_ref_exec(v: &Vec<char>) -> (r: Option<(usize, usize)>)
    ensures
        match r {
            Some((start, end)) => find_macro_ref(v@) matches Some((s, e, _)) && s == start && e
                == end,
            None => find_macro_ref(v@) is None,
        },
        r matches Some((start, end)) ==> start + 2 < end <= v@.len(),
{
    let mut i: usize = 0;
    while i < v.len()
        invariant
            i <= v@.len(),
            find_macro_ref_from(v@, 0) == find_macro_ref_from(v@, i as int),
        decreases v.len() - i,
    {
        if i + 1 < v.len() && v[i] == '$' && v[i + 1] == '{' {
            let e = name_end_exec(v, i + 2);
            proof {
                lemma_name_end(v@, i + 2);
            }
            if e > i + 2 && e < v.len() && v[e] == '}' {
                return Some((i, e + 1));
            }
        }
        i = i + 1;
    }
    None
}

/// The state that flattening works on: names being flattened, and flat macros found so far.
pub struct FlattenState {
    pub history: Set<Seq<char>>,
    pub flat: Map<Seq<char>, Seq<char>>,
}

/// What flattening a macro gives, with `fuel` steps at most (`None` when they do not suffice).
///
/// A flat macro is kept as it is. An unknown macro is `NotFound`. A macro met again while it
/// is being flattened is an `InfiniteLoop`. Otherwise the macro's value is expanded (see
/// `expand_spec`) and recorded as flat.
pub open spec fn flatten_spec(
    name: Seq<char>,
    st: FlattenState,
    macros: Map<Seq<char>, Seq<char>>,
    fuel: nat,
) -> Option<(Result<(), MacroErrorModel>, FlattenState)>
    decreases fuel,
{
    if fuel == 0 {
        None
    } else if st.flat.contains_key(name) {
        Some((Ok(()), st))
    } else if !macros.contains_key(name) {
        Some((Err(MacroErrorModel::NotFound(name)), st))
    } else if st.history.contains(name) {
        Some((Err(MacroErrorModel::InfiniteLoop(name)), st))
    } else {
        let st1 = FlattenState { history: st.history.insert(name), flat: st.flat };
        match expand_spec(macros[name], st1, macros, (fuel - 1) as nat) {
            None => None,
            Some((Ok(v), st2)) => Some(
                (Ok(()), FlattenState { history: st2.history, flat: st2.flat.insert(name, v) }),
            ),
            Some((Err(e), st2)) => Some((Err(e), st2)),
        }
    }
}

/// What expanding `value` gives, with `fuel` steps at most.
///
/// While `value` holds a macro reference, the first one is replaced by the flat value of the
/// macro it names (flattening that macro first where it is not flat yet).
pub open spec fn expand_spec(
    value: Seq<char>,
    st: FlattenState,
    macros: Map<Seq<char>, Seq<char>>,
    fuel: nat,
) -> Option<(Result<Seq<char>, MacroErrorModel>, FlattenState)>
    decreases fuel,
{
    if fuel == 0 {
        None
    } else {
        match find_macro_ref(value) {
            None => Some((Ok(value), st)),
            Some((start, end, sub)) => {
                let r = if st.flat.contains_key(sub) {
                    Some((Ok(()), st))
                } else {
                    flatten_spec(sub, st, macros, (fuel - 1) as nat)
                };
                match r {
                    None => None,
                    Some((Err(e), st2)) => Some((Err(e), st2)),
                    Some((Ok(()), st2)) => if st2.flat.contains_key(sub) {
                        expand_spec(
                            value.take(start) + st2.flat[sub] + value.skip(end),
                            st2,
                            macros,
                            (fuel - 1) as nat,
                        )
                    } else {
                        Some((Err(MacroErrorModel::NotFound(sub)), st2))
                    },
                }
            },
        }
    }
}

/// The most steps that flattening or expanding is given: more than any run can take.
pub open spec fn max_steps() -> nat {
    u64::MAX as nat
}

/// Flattening `name` ends within `max_steps()` steps.
pub open spec fn flatten_ends(
    name: Seq<char>,
    st: FlattenState,
    macros: Map<Seq<char>, Seq<char>>,
) -> bool {
    flatten_spec(name, st, macros, max_steps()) is Some
}

/// More fuel than enough changes nothing.
pub proof fn lemma_flatten_fuel(
    name: Seq<char>,
    st: FlattenState,
    macros: Map<Seq<char>, Seq<char>>,
    f1: nat,
    f2: nat,
)
    requires
        f1 <= f2,
        flatten_spec(name, st, macros, f1) is Some,
    ensures
        flatten_spec(name, st, macros, f2) == flatten_spec(name, st, macros, f1),
    decreases f1, 1nat,
{
    if !st.flat.contains_key(name) && macros.contains_key(name) && !st.history.contains(name) {
        let st1 = FlattenState { history: st.history.insert(name), flat: st.flat };
        lemma_expand_fuel(macros[name], st1, macros, (f1 - 1) as nat, (f2 - 1) as nat);
    }
}

/// More fuel than enough changes nothing.
pub proof fn lemma_expand_fuel(
    value: Seq<char>,
    st: FlattenState,
    macros: Map<Seq<char>, Seq<char>>,
    f1: nat,
    f2: nat,
)
    requires
        f1 <= f2,
        expand_spec(value, st, macros, f1) is Some,
    ensures
        expand_spec(value, st, macros, f2) == expand_spec(value, st, macros, f1),
    decreases f1, 0nat,
{
    match find_macro_ref(value) {
        None => {},
        Some((start, end, sub)) => {
            if !st.flat.contains_key(sub) {
                lemma_flatten_fuel(sub, st, macros, (f1 - 1) as nat, (f2 - 1) as nat);
            }
            let r = if st.flat.contains_key(sub) {
                Some((Ok(()), st))
            } else {
                flatten_spec(sub, st, macros, (f1 - 1) as nat)
            };
            match r {
                Some((Ok(()), st2)) => {
                    if st2.flat.contains_key(sub) {
                        lemma_expand_fuel(
                            value.take(start) + st2.flat[sub] + value.skip(end),
                            st2,
                            macros,
                            (f1 - 1) as nat,
                            (f2 - 1) as nat,
                        );
                    }
                },
                _ => {},
            }
        },
    }
}

/// Every value of the map holds no macro reference.
pub open spec fn all_flat(f: Map<Seq<char>, Seq<char>>) -> bool {
    forall|k: Seq<char>| #[trigger] f.contains_key(k) ==> is_flat(f[k])
}

/// `f2` keeps every entry of `f`.
pub open spec fn extends(f: Map<Seq<char>, Seq<char>>, f2: Map<Seq<char>, Seq<char>>) -> bool {
    forall|k: Seq<char>| #[trigger] f.contains_key(k) ==> f2.contains_key(k) && f2[k] == f[k]
}

/// What flattening or expanding guarantees of its outcome, starting from state `st`.
pub open spec fn outcome_ok(
    st: FlattenState,
    st2: FlattenState,
    macros: Map<Seq<char>, Seq<char>>,
    err: Option<MacroErrorModel>,
) -> bool {
    &&& extends(st.flat, st2.flat)
    &&& all_flat(st2.flat)
    &&& forall|k: Seq<char>| #[trigger] st2.flat.contains_key(k) ==> st.flat.contains_key(k)
        || macros.contains_key(k)
    &&& st.history.subset_of(st2.history)
    &&& forall|k: Seq<char>| #[trigger] st2.flat.contains_key(k) && !st.flat.contains_key(k)
        ==> !st.history.contains(k)
    &&& (err matches Some(MacroErrorModel::NotFound(n)) ==> !macros.contains_key(n)
        && !st2.flat.contains_key(n))
    &&& (err matches Some(MacroErrorModel::InfiniteLoop(n)) ==> macros.contains_key(n)
        && st2.history.contains(n) && !st2.flat.contains_key(n))
}

/// Laws of flattening, where the flat macros given are flat: on success the macro is
/// recorded and its value holds no macro reference; entries recorded before stay as they
/// are; only macros are recorded; names being flattened stay so; an unknown macro is
/// reported only when no macro has its name, and a loop only for a macro being flattened.
pub proof fn law_flatten_outcome(
    name: Seq<char>,
    st: FlattenState,
    macros: Map<Seq<char>, Seq<char>>,
    fuel: nat,
)
    requires
        all_flat(st.flat),
        flatten_spec(name, st, macros, fuel) is Some,
    ensures
        ({
            let (res, st2) = flatten_spec(name, st, macros, fuel)->0;
            &&& outcome_ok(
                st,
                st2,
                macros,
                match res {
                    Ok(()) => None,
                    Err(e) => Some(e),
                },
            )
            &&& res is Ok ==> st2.flat.contains_key(name)
        }),
    decreases fuel, 1nat,
{
    if !st.flat.contains_key(name) && macros.contains_key(name) && !st.history.contains(name) {
        let st1 = FlattenState { history: st.history.insert(name), flat: st.flat };
        law_expand_outcome(macros[name], st1, macros, (fuel - 1) as nat);
        let (res, st2) = expand_spec(macros[name], st1, macros, (fuel - 1) as nat)->0;
        if let Ok(v) = res {
            let f3 = st2.flat.insert(name, v);
            assert(!st2.flat.contains_key(name)) by {
                if st2.flat.contains_key(name) {
                    assert(st1.history.contains(name));
                }
            }
            assert(all_flat(f3)) by {
                assert forall|k: Seq<char>| #[trigger] f3.contains_key(k) implies is_flat(f3[k]) by {
                    if k != name {
                        assert(st2.flat.contains_key(k));
                    }
                }
            }
            assert(extends(st.flat, f3)) by {
                assert forall|k: Seq<char>| #[trigger] st.flat.contains_key(k) implies f3.contains_key(
                    k,
                ) && f3[k] == st.flat[k] by {
                    assert(st2.flat.contains_key(k));
                }
            }
            assert forall|k: Seq<char>| #[trigger] f3.contains_key(k) implies st.flat.contains_key(k)
                || macros.contains_key(k) by {
                if k != name {
                    assert(st2.flat.contains_key(k));
                }
            }
        }
    }
}

/// Laws of expanding a value; see `law_flatten_outcome`. A successful expansion holds no
/// macro reference.
pub proof fn law_expand_outcome(
    value: Seq<char>,
    st: FlattenState,
    macros: Map<Seq<char>, Seq<char>>,
    fuel: nat,
)
    requires
        all_flat(st.flat),
        expand_spec(value, st, macros, fuel) is Some,
    ensures
        ({
            let (res, st2) = expand_spec(value, st, macros, fuel)->0;
            &&& outcome_ok(
                st,
                st2,
                macros,
                match res {
                    Ok(_) => None,
                    Err(e) => Some(e),
                },
            )
            &&& res matches Ok(v) ==> is_flat(v)
        }),
    decreases fuel, 0nat,
{
    match find_macro_ref(value) {
        None => {},
        Some((start, end, sub)) => {
            if !st.flat.contains_key(sub) {
                law_flatten_outcome(sub, st, macros, (fuel - 1) as nat);
            }
            let r = if st.flat.contains_key(sub) {
                Some((Ok(()), st))
            } else {
                flatten_spec(sub, st, macros, (fuel - 1) as nat)
            };
            if let Some((Ok(()), st2)) = r {
                if st2.flat.contains_key(sub) {
                    let next = value.take(start) + st2.flat[sub] + value.skip(end);
                    law_expand_outcome(next, st2, macros, (fuel - 1) as nat);
                    let (res3, st3) = expand_spec(next, st2, macros, (fuel - 1) as nat)->0;
                    assert(extends(st.flat, st3.flat)) by {
                        assert forall|k: Seq<char>| #[trigger] st.flat.contains_key(
                            k,
                        ) implies st3.flat.contains_key(k) && st3.flat[k] == st.flat[k] by {
                            assert(st2.flat.contains_key(k));
                        }
                    }
                    assert forall|k: Seq<char>| #[trigger] st3.flat.contains_key(
                        k,
                    ) implies st.flat.contains_key(k) || macros.contains_key(k) by {
                        if !st2.flat.contains_key(k) {
                        } else {
                        }
                    }
                    assert forall|k: Seq<char>| #[trigger] st3.flat.contains_key(k)
                        && !st.flat.contains_key(k) implies !st.history.contains(k) by {
                        if !st2.flat.contains_key(k) {
                            assert(st.history.subset_of(st2.history));
                        }
                    }
                    assert(st.history.subset_of(st3.history));
                }
            }
        },
    }
}

/// Every character may stand in a macro name.
pub open spec fn is_macro_name(s: Seq<char>) -> bool {
    forall|i: int| 0 <= i < s.len() ==> is_name_char(#[trigger] s[i])
}

/// The macro name that an error reports.
pub open spec fn error_name(e: MacroErrorModel) -> Seq<char> {
    match e {
        MacroErrorModel::NotFound(n) => n,
        MacroErrorModel::InfiniteLoop(n) => n,
    }
}

/// A flattening error reports the macro asked for (when no macro has its name, or when it is
/// being flattened already), or a macro referred to in a value, whose name holds only name
/// characters.
pub proof fn law_flatten_error_name(
    name: Seq<char>,
    st: FlattenState,
    macros: Map<Seq<char>, Seq<char>>,
    fuel: nat,
)
    ensures
        flatten_spec(name, st, macros, fuel) matches Some((Err(e), _)) ==> (e
            == MacroErrorModel::NotFound(name) && !macros.contains_key(name)) || (e
            == MacroErrorModel::InfiniteLoop(name) && st.history.contains(name)) || is_macro_name(
            error_name(e),
        ),
    decreases fuel, 1nat,
{
    if fuel > 0 && !st.flat.contains_key(name) && macros.contains_key(name)
        && !st.history.contains(name) {
        let st1 = FlattenState { history: st.history.insert(name), flat: st.flat };
        law_expand_error_name(macros[name], st1, macros, (fuel - 1) as nat);
    }
}

/// An expansion error reports a macro referred to in a value: its name holds only name
/// characters.
pub proof fn law_expand_error_name(
    value: Seq<char>,
    st: FlattenState,
    macros: Map<Seq<char>, Seq<char>>,
    fuel: nat,
)
    ensures
        expand_spec(value, st, macros, fuel) matches Some((Err(e), _)) ==> is_macro_name(
            error_name(e),
        ),
    decreases fuel, 0nat,
{
    if fuel > 0 {
        if let Some((start, end, sub)) = find_macro_ref(value) {
            let i = find_macro_ref_from(value, 0)->0;
            lemma_find_macro_ref_from(value, 0);
            lemma_name_end(value, i + 2);
            assert(is_macro_name(sub)) by {
                assert forall|k: int| 0 <= k < sub.len() implies is_name_char(#[trigger] sub[k]) by {
                    assert(sub[k] == value[i + 2 + k]);
                }
            }
            if !st.flat.contains_key(sub) {
                law_flatten_error_name(sub, st, macros, (fuel - 1) as nat);
            }
            let r = if st.flat.contains_key(sub) {
                Some((Ok(()), st))
            } else {
                flatten_spec(sub, st, macros, (fuel - 1) as nat)
            };
            if let Some((Ok(()), st2)) = r {
                if st2.flat.contains_key(sub) {
                    law_expand_error_name(
                        value.take(start) + st2.flat[sub] + value.skip(end),
                        st2,
                        macros,
                        (fuel - 1) as nat,
                    );
                }
            }
        }
    }
}

/// The result of flattening as a mathematical value.
pub open spec fn macro_result(r: Result<(), MacroError>) -> Result<(), MacroErrorModel> {
    match r {
        Ok(()) => Ok(()),
        Err(e) => Err(e@),
    }
}

/// The names held by a list of strings.
pub open spec fn names(h: Seq<String>) -> Set<Seq<char>> {
    Set::new(|s: Seq<char>| exists|i: int| 0 <= i < h.len() && h[i]@ == s)
}

/// The state that the arguments of `flatten_macro` stand for.
pub open spec fn state_of(history: Seq<String>, flat: Map<Seq<char>, Seq<char>>) -> FlattenState {
    FlattenState { history: names(history), flat }
}

fn history_contains(history: &Vec<String>, name: &str) -> (r: bool)
    ensures
        r == names(history@).contains(name@),
{
    let mut i: usize = 0;
    while i < history.len()
        invariant
            i <= history@.len(),
            forall|j: int| 0 <= j < i ==> history@[j]@ != name@,
        decreases history.len() - i,
    {
        if str_eq(history[i].as_str(), name) {
            assert(names(history@).contains(name@)) by {
                assert(history@[i as int]@ == name@);
            }
            return true;
        }
        i = i + 1;
    }
    false
}

pub(crate) fn flatten_rec(
    name: &str,
    history: &mut Vec<String>,
    macros: &StrMap<String>,
    flat_macros: &mut StrMap<String>,
    fuel: u64,
) -> (r: Option<Result<(), MacroError>>)
    requires
        macros.wf(),
        old(flat_macros).wf(),
    ensures
        final(flat_macros).wf(),
        flatten_spec(name@, state_of(old(history)@, old(flat_macros).map()), macros.map(), fuel as nat)
            == match r {
            Some(res) => Some((macro_result(res), state_of(final(history)@, final(flat_macros).map()))),
            None => None,
        },
    decreases fuel, 1nat,
{
    if fuel == 0 {
        return None;
    }
    let ghost st = state_of(history@, flat_macros.map());
    if flat_macros.contains_key(name) {
        return Some(Ok(()));
    }
    let value = match macros.get(name) {
        Some(value) => chars_of(value.as_str()),
        None => {
            return Some(Err(MacroError::NotFound(name.to_owned())));
        },
    };
    if history_contains(history, name) {
        return Some(Err(MacroError::InfiniteLoop(name.to_owned())));
    }
    let ghost old_history = history@;
    history.push(name.to_owned());
    assert(names(history@) =~= names(old_history).insert(name@)) by {
        assert forall|s: Seq<char>| names(history@).contains(s) implies names(
            old_history,
        ).insert(name@).contains(s) by {
            let i = choose|i: int| 0 <= i < history@.len() && history@[i]@ == s;
            if i < old_history.len() {
                assert(old_history[i]@ == s);
            }
        }
        assert forall|s: Seq<char>| names(old_history).insert(name@).contains(s) implies names(
            history@,
        ).contains(s) by {
            if s == name@ {
                assert(history@[old_history.len() as int]@ == s);
            } else {
                let i = choose|i: int| 0 <= i < old_history.len() && old_history[i]@ == s;
                assert(history@[i]@ == s);
            }
        }
    }
    match expand_rec(value, history, macros, flat_macros, fuel - 1) {
        Some(Ok(v)) => {
            let s = string_of(&v, 0, v.len());
            assert(v@.subrange(0, v@.len() as int) =~= v@);
            flat_macros.insert(name.to_owned(), s);
            Some(Ok(()))
        },
        Some(Err(e)) => Some(Err(e)),
        None => None,
    }
}

fn expand_rec(
    value: Vec<char>,
    history: &mut Vec<String>,
    macros: &StrMap<String>,
    flat_macros: &mut StrMap<String>,
    fuel: u64,
) -> (r: Option<Result<Vec<char>, MacroError>>)
    requires
        macros.wf(),
        old(flat_macros).wf(),
    ensures
        final(flat_macros).wf(),
        expand_spec(value@, state_of(old(history)@, old(flat_macros).map()), macros.map(), fuel as nat)
            == match r {
            Some(res) => Some(
                (
                    match res {
                        Ok(v) => Ok(v@),
                        Err(e) => Err(e@),
                    },
                    state_of(final(history)@, final(flat_macros).map()),
                ),
            ),
            None => None,
        },
    decreases fuel, 0nat,
{
    if fuel == 0 {
        return None;
    }
    match find_macro_ref_exec(&value) {
        None => Some(Ok(value)),
        Some((start, end)) => {
            let sub = string_of(&value, start + 2, end - 1);
            if !flat_macros.contains_key(sub.as_str()) {
                match flatten_rec(sub.as_str(), history, macros, flat_macros, fuel - 1) {
                    Some(Ok(())) => {},
                    Some(Err(e)) => {
                        return Some(Err(e));
                    },
                    None => {
                        return None;
                    },
                }
            }
            let next = match flat_macros.get(sub.as_str()) {
                Some(sub_value) => replace_range(&value, start, end, sub_value.as_str()),
                None => {
                    return Some(Err(MacroError::NotFound(sub)));
                },
            };
            expand_rec(next, history, macros, flat_macros, fuel - 1)
        },
    }
}

/// `v` with `v[start..end]` replaced by `s`.
pub fn replace_range(v: &Vec<char>, start: usize, end: usize, s: &str) -> (r: Vec<char>)
    requires
        start <= end <= v@.len(),
    ensures
        r@ == v@.take(start as int) + s@ + v@.skip(end as int),
{
    let sub_chars = chars_of(s);
    let mut next: Vec<char> = Vec::new();
    let mut i: usize = 0;
    while i < start
        invariant
            i <= start <= end <= v@.len(),
            next@ == v@.take(i as int),
        decreases start - i,
    {
        next.push(v[i]);
        i = i + 1;
    }
    let mut j: usize = 0;
    while j < sub_chars.len()
        invariant
            j <= sub_chars@.len(),
            next@ == v@.take(start as int) + sub_chars@.take(j as int),
        decreases sub_chars.len() - j,
    {
        next.push(sub_chars[j]);
        j = j + 1;
    }
    let mut k: usize = end;
    while k < v.len()
        invariant
            end <= k <= v@.len(),
            next@ == v@.take(start as int) + sub_chars@ + v@.subrange(end as int, k as int),
        decreases v.len() - k,
    {
        next.push(v[k]);
        k = k + 1;
    }
    assert(sub_chars@.take(sub_chars@.len() as int) =~= sub_chars@);
    assert(v@.subrange(end as int, v@.len() as int) =~= v@.skip(end as int));
    next
}

/// Flattens macro `macro_name`: replaces every macro reference in its value by the flat value
/// of the macro named, flattening that one first, and records the result in `flat_macros`.
///
/// `history` holds the names being flattened, to find macros that refer to themselves.
/// The process is the one that `flatten_spec` states; it must end (on some inputs
/// the replacement creates references anew without end), and does within `max_steps()` steps.
pub fn flatten_macro(
    macro_name: &str,
    history: &mut Vec<String>,
    macros: &StrMap<String>,
    flat_macros: &mut StrMap<String>,
) -> (r: Result<(), MacroError>)
    requires
        macros.wf(),
        old(flat_macros).wf(),
        flatten_ends(macro_name@, state_of(old(history)@, old(flat_macros).map()), macros.map()),
    ensures
        final(flat_macros).wf(),
        forall|fuel: nat|
            #![trigger flatten_spec(
                macro_name@,
                state_of(old(history)@, old(flat_macros).map()),
                macros.map(),
                fuel,
            )]
            flatten_spec(
                macro_name@,
                state_of(old(history)@, old(flat_macros).map()),
                macros.map(),
                fuel,
            ) is Some ==> flatten_spec(
                macro_name@,
                state_of(old(history)@, old(flat_macros).map()),
                macros.map(),
                fuel,
            ) == Some((macro_result(r), state_of(final(history)@, final(flat_macros).map()))),
{
    let ghost st = state_of(history@, flat_macros.map());
    let ghost fuel = max_steps();
    let r = match flatten_rec(macro_name, history, macros, flat_macros, u64::MAX) {
        Some(r) => r,
        None => {
            proof {
                assert(false);
            }
            Ok(())
        },
    };
    proof {
        assert forall|f: nat| flatten_spec(macro_name@, st, macros.map(), f) is Some implies flatten_spec(
            macro_name@,
            st,
            macros.map(),
            f,
        ) == Some((macro_result(r), state_of(history@, flat_macros.map()))) by {
            if f <= fuel {
                lemma_flatten_fuel(macro_name@, st, macros.map(), f, fuel);
            } else {
                lemma_flatten_fuel(macro_name@, st, macros.map(), fuel, f);
            }
        }
    }
    r
}

} // verus!
