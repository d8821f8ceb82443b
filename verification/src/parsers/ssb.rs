//! Raw SSB data: a script read line by line into ordered structures.
use vstd::prelude::*;
use vstd::view::View as DataView;
use crate::error::ParseError;
use crate::maps::{AssocMap, FontMap, StrMap};
use crate::text::{
    chars_of, find_char, find_char_exec, find_char_from, find_char_in, find_seq, find_seq_exec,
    find_seq_from, lemma_utf8_len_concat, lemma_utf8_len_single, lemma_utf8_len_subrange,
    lemma_find_char_skip, lemma_two_fields_len, occurs_at, starts_with, starts_with_at,
    string_of, utf8_len, utf8_len_exec,
};
use crate::types::{
    Event, EventModel, EventTrigger, FontData, FontFace, FontStyle, TextureData,
    TextureDataType, TextureDataVariant, TextureId, TextureModel, TriggerModel, View,
    font_style_of, texture_data_type_of,
};
use crate::utils::state::{Section, section_header, section_of, law_section_header_roundtrip};
use crate::text::lemma_find_char_from;
use crate::utils::functions::convert::{
    all_digits, decimal_value, digit_value, is_digit, lemma_timestamp_ms_bound, parse_timestamp,
    timestamp_ms,
};

verus! {

/// Raw SSB data, holding the input entry by entry (except empty lines and comments).
#[derive(Debug, Clone)]
pub struct Ssb {
    // Info section
    pub info_title: Option<String>,
    pub info_author: Option<String>,
    pub info_description: Option<String>,
    pub info_version: Option<String>,
    pub info_custom: StrMap<String>,
    // Target section
    pub target_width: Option<u16>,
    pub target_height: Option<u16>,
    pub target_depth: u16,
    pub target_view: View,
    // Macros section
    pub macros: StrMap<String>,
    // Events section
    pub events: Vec<Event>,
    // Resources section
    pub fonts: FontMap,
    pub textures: StrMap<TextureDataVariant>,
}

/// `Ssb` as a mathematical value.
#[verifier::ext_equal]
pub struct SsbModel {
    pub info_title: Option<Seq<char>>,
    pub info_author: Option<Seq<char>>,
    pub info_description: Option<Seq<char>>,
    pub info_version: Option<Seq<char>>,
    pub info_custom: Map<Seq<char>, Seq<char>>,
    pub target_width: Option<u16>,
    pub target_height: Option<u16>,
    pub target_depth: u16,
    pub target_view: View,
    pub macros: Map<Seq<char>, Seq<char>>,
    pub events: Seq<EventModel>,
    pub fonts: Map<(Seq<char>, FontStyle), Seq<u8>>,
    pub textures: Map<Seq<char>, TextureModel>,
}

/// The view of an optional string.
pub open spec fn opt_str(s: Option<String>) -> Option<Seq<char>> {
    match s {
        Some(x) => Some(x@),
        None => None,
    }
}

impl DataView for Ssb {
    type V = SsbModel;

    open spec fn view(&self) -> SsbModel {
        SsbModel {
            info_title: opt_str(self.info_title),
            info_author: opt_str(self.info_author),
            info_description: opt_str(self.info_description),
            info_version: opt_str(self.info_version),
            info_custom: self.info_custom.map(),
            target_width: self.target_width,
            target_height: self.target_height,
            target_depth: self.target_depth,
            target_view: self.target_view,
            macros: self.macros.map(),
            events: self.events@.map_values(|e: Event| e@),
            fonts: self.fonts.map(),
            textures: self.textures.map(),
        }
    }
}

/// The data before anything is read: no entries, depth 1000, perspective view.
pub open spec fn empty_model() -> SsbModel {
    SsbModel {
        info_title: None,
        info_author: None,
        info_description: None,
        info_version: None,
        info_custom: Map::empty(),
        target_width: None,
        target_height: None,
        target_depth: 1000,
        target_view: View::Perspective,
        macros: Map::empty(),
        events: Seq::empty(),
        fonts: Map::empty(),
        textures: Map::empty(),
    }
}

/// An entry of a section, read: the new data, or an error message and the byte column it
/// points at.
pub type EntryResult = Result<SsbModel, (Seq<char>, nat)>;

/// Splits `key: value` at the first `: `, where something comes before it.
pub open spec fn key_value(l: Seq<char>) -> Option<(Seq<char>, Seq<char>)> {
    match find_seq(l, ": "@) {
        Some(p) => if p > 0 {
            Some((l.take(p), l.skip(p + 2)))
        } else {
            None
        },
        None => None,
    }
}

/// An entry of the info section: title, author, description, version or a custom `key: value`.
pub open spec fn info_entry(m: SsbModel, l: Seq<char>) -> EntryResult {
    if starts_with(l, "Title: "@) {
        Ok(SsbModel { info_title: Some(l.skip(7)), ..m })
    } else if starts_with(l, "Author: "@) {
        Ok(SsbModel { info_author: Some(l.skip(8)), ..m })
    } else if starts_with(l, "Description: "@) {
        Ok(SsbModel { info_description: Some(l.skip(13)), ..m })
    } else if starts_with(l, "Version: "@) {
        Ok(SsbModel { info_version: Some(l.skip(9)), ..m })
    } else {
        match key_value(l) {
            Some((k, v)) => Ok(SsbModel { info_custom: m.info_custom.insert(k, v), ..m }),
            None => Err(("Invalid info entry!"@, 0)),
        }
    }
}

/// What `str::parse::<u16>` gives: an optional `+`, then one or more ASCII digits whose value
/// is at most 65535.
pub open spec fn u16_of(s: Seq<char>) -> Option<u16> {
    let d = if s.len() > 0 && s[0] == '+' {
        s.skip(1)
    } else {
        s
    };
    if d.len() > 0 && all_digits(d) && decimal_value(d) <= 65535 {
        Some(decimal_value(d) as u16)
    } else {
        None
    }
}

/// The view that a value names (`perspective`, `orthogonal`).
pub open spec fn target_view_of(value: Seq<char>) -> Option<View> {
    crate::types::view_of(value)
}

/// An entry of the target section: width, height, depth or view.
pub open spec fn target_entry(m: SsbModel, l: Seq<char>) -> EntryResult {
    if starts_with(l, "Width: "@) {
        match u16_of(l.skip(7)) {
            Some(w) => Ok(SsbModel { target_width: Some(w), ..m }),
            None => Err(("Invalid target width value!"@, 7)),
        }
    } else if starts_with(l, "Height: "@) {
        match u16_of(l.skip(8)) {
            Some(h) => Ok(SsbModel { target_height: Some(h), ..m }),
            None => Err(("Invalid target height value!"@, 8)),
        }
    } else if starts_with(l, "Depth: "@) {
        match u16_of(l.skip(7)) {
            Some(d) => Ok(SsbModel { target_depth: d, ..m }),
            None => Err(("Invalid target depth value!"@, 7)),
        }
    } else if starts_with(l, "View: "@) {
        match target_view_of(l.skip(6)) {
            Some(v) => Ok(SsbModel { target_view: v, ..m }),
            None => Err(("Invalid target view value!"@, 6)),
        }
    } else {
        Err(("Invalid target entry!"@, 0))
    }
}

/// An entry of the macros section: `name: value`.
pub open spec fn macros_entry(m: SsbModel, l: Seq<char>) -> EntryResult {
    match key_value(l) {
        Some((k, v)) => Ok(SsbModel { macros: m.macros.insert(k, v), ..m }),
        None => Err(("Invalid macros entry!"@, 0)),
    }
}

/// The trigger of an event: `'id'` in single quotes, or `start-end` as two timestamps with the
/// start not after the end.
pub open spec fn trigger_of(t: Seq<char>) -> Result<TriggerModel, (Seq<char>, nat)> {
    if t.len() >= 2 && t[0] == '\'' && t.last() == '\'' {
        Ok(TriggerModel::Id(t.subrange(1, t.len() - 1)))
    } else {
        match find_char(t, '-') {
            Some(p) => match timestamp_ms(t.take(p)) {
                None => Err(("Start timestamp invalid!"@, 0)),
                Some(start) => match timestamp_ms(t.skip(p + 1)) {
                    None => Err(("End timestamp invalid!"@, utf8_len(t.take(p)) + 1)),
                    Some(end) => if start > end {
                        Err(("Start time greater than end time!"@, 0))
                    } else {
                        Ok(TriggerModel::Time(start as u32, end as u32))
                    },
                },
            },
            None => Err(("Invalid trigger format!"@, 0)),
        }
    }
}

/// `Some(s)` for a non-empty `s`.
pub open spec fn non_empty(s: Seq<char>) -> Option<Seq<char>> {
    if s.len() > 0 {
        Some(s)
    } else {
        None
    }
}

/// An entry of the events section: `trigger|macro|note|data`, the data taking the rest of the
/// line; the event records the byte column where its data starts.
pub open spec fn events_entry(m: SsbModel, l: Seq<char>, index: usize) -> EntryResult {
    match find_char(l, '|') {
        None => Err(("Invalid events entry!"@, 0)),
        Some(a) => match find_char_from(l, '|', a + 1) {
            None => Err(("Invalid events entry!"@, 0)),
            Some(b) => match find_char_from(l, '|', b + 1) {
                None => Err(("Invalid events entry!"@, 0)),
                Some(c) => {
                    let trigger = l.take(a);
                    let macro_name = l.subrange(a + 1, b);
                    let note = l.subrange(b + 1, c);
                    match trigger_of(trigger) {
                        Err(e) => Err(e),
                        Ok(t) => Ok(
                            SsbModel {
                                events: m.events.push(
                                    EventModel {
                                        trigger: t,
                                        macro_name: non_empty(macro_name),
                                        note: non_empty(note),
                                        data: l.skip(c + 1),
                                        data_location: (
                                            index,
                                            (utf8_len(trigger) + utf8_len(macro_name) + utf8_len(
                                                note,
                                            ) + 3) as usize,
                                        ),
                                    },
                                ),
                                ..m
                            },
                        ),
                    }
                },
            },
        },
    }
}

/// Names what `base64::decode` gives for a text: the bytes that it denotes in the standard
/// base64 alphabet with padding, or `None` where it is not such base64.
pub uninterp spec fn base64_decoded(input: Seq<char>) -> Option<Seq<u8>>;

/// The view of optional bytes.
pub open spec fn opt_bytes(o: Option<Vec<u8>>) -> Option<Seq<u8>> {
    match o {
        Some(v) => Some(v@),
        None => None,
    }
}

/// A font whose data was decoded from base64 (`None`: the data was not base64, an error at
/// byte column `column`).
pub open spec fn font_added(
    m: SsbModel,
    face: (Seq<char>, FontStyle),
    decoded: Option<Seq<u8>>,
    column: nat,
) -> EntryResult {
    match decoded {
        Some(bytes) => Ok(SsbModel { fonts: m.fonts.insert(face, bytes), ..m }),
        None => Err(("Font data not in base64 format!"@, column)),
    }
}

/// Texture data that was decoded from base64 (`None`: the data was not base64, an error at
/// byte column `column`).
pub open spec fn texture_added(
    m: SsbModel,
    id: Seq<char>,
    decoded: Option<Seq<u8>>,
    column: nat,
) -> EntryResult {
    match decoded {
        Some(bytes) => Ok(SsbModel { textures: m.textures.insert(id, TextureModel::Raw(bytes)), ..m }),
        None => Err(("Texture data not in base64 format!"@, column)),
    }
}

/// An entry of the resources section: `Font: family,style,data` with base64 data, or
/// `Texture: id,data,base64 data` or `Texture: id,url,location`.
pub open spec fn resources_entry(m: SsbModel, l: Seq<char>) -> EntryResult {
    if starts_with(l, "Font: "@) {
        let rest = l.skip(6);
        match find_char(rest, ',') {
            None => Err(("Font family, style and data expected!"@, 6)),
            Some(a) => match find_char_from(rest, ',', a + 1) {
                None => Err(("Font family, style and data expected!"@, 6)),
                Some(b) => {
                    let family = rest.take(a);
                    let style = rest.subrange(a + 1, b);
                    match font_style_of(style) {
                        None => Err(("Font style invalid!"@, 6 + utf8_len(family) + 1)),
                        Some(st) => font_added(
                            m,
                            (family, st),
                            base64_decoded(rest.skip(b + 1)),
                            6 + utf8_len(family) + utf8_len(style) + 2,
                        ),
                    }
                },
            },
        }
    } else if starts_with(l, "Texture: "@) {
        let rest = l.skip(9);
        match find_char(rest, ',') {
            None => Err(("Texture id, data type and data expected!"@, 9)),
            Some(a) => match find_char_from(rest, ',', a + 1) {
                None => Err(("Texture id, data type and data expected!"@, 9)),
                Some(b) => {
                    let id = rest.take(a);
                    let data_type = rest.subrange(a + 1, b);
                    let data = rest.skip(b + 1);
                    match texture_data_type_of(data_type) {
                        Some(TextureDataType::Raw) => texture_added(
                            m,
                            id,
                            base64_decoded(data),
                            9 + utf8_len(id) + utf8_len(data_type) + 2,
                        ),
                        Some(TextureDataType::Url) => Ok(
                            SsbModel { textures: m.textures.insert(id, TextureModel::Url(data)), ..m },
                        ),
                        None => Err(("Texture data type invalid!"@, 9 + utf8_len(id) + 1)),
                    }
                },
            },
        }
    } else {
        Err(("Invalid resources entry!"@, 0))
    }
}

/// An entry of the section `s`.
pub open spec fn section_entry(m: SsbModel, s: Section, l: Seq<char>, index: usize) -> EntryResult {
    match s {
        Section::Info => info_entry(m, l),
        Section::Target => target_entry(m, l),
        Section::Macros => macros_entry(m, l),
        Section::Events => events_entry(m, l, index),
        Section::Resources => resources_entry(m, l),
    }
}

/// A line without one final carriage return.
pub open spec fn strip_cr(line: Seq<char>) -> Seq<char> {
    if line.len() > 0 && line.last() == '\r' {
        line.drop_last()
    } else {
        line
    }
}

/// What line `index` does, in the section that earlier lines set: an empty line or a comment
/// (`//`) does nothing, a section header switches the section, anything else is an entry of
/// the section; an entry before any section header is an error.
#[verifier::opaque]
pub open spec fn line_step(m: SsbModel, section: Option<Section>, index: usize, line: Seq<char>) -> Result<
    (SsbModel, Option<Section>),
    (Seq<char>, nat),
> {
    let l = strip_cr(line);
    if l.len() == 0 || starts_with(l, "//"@) {
        Ok((m, section))
    } else {
        match section_of(l) {
            Some(s) => Ok((m, Some(s))),
            None => match section {
                None => Err(("No section set!"@, 0)),
                Some(s) => match section_entry(m, s, l, index) {
                    Ok(m2) => Ok((m2, section)),
                    Err(e) => Err(e),
                },
            },
        }
    }
}

/// The lines of a text as `BufRead::lines` yields them: split at each line feed, a carriage
/// return right before a line feed dropped, and no line after a final line feed.
pub open spec fn lines_of(s: Seq<char>) -> Seq<Seq<char>>
    decreases s.len(),
{
    if s.len() == 0 {
        Seq::empty()
    } else {
        match find_char(s, '\n') {
            None => seq![s],
            Some(i) => {
                proof {
                    lemma_find_char_from(s, '\n', 0);
                }
                seq![strip_cr(s.take(i))] + lines_of(s.skip(i + 1))
            },
        }
    }
}

/// Where reading a sequence of lines ends: all lines read, with the data and the section
/// set last; or an error at a line, with the data as the lines before it left it.
pub enum ParseOutcome {
    Done(SsbModel, Option<Section>),
    Failed(SsbModel, Seq<char>, usize, nat),
}

/// Reads `lines` one after another, starting with no section set, up to the first error.
pub open spec fn parse_lines(m: SsbModel, lines: Seq<Seq<char>>) -> ParseOutcome
    decreases lines.len(),
{
    if lines.len() == 0 {
        ParseOutcome::Done(m, None)
    } else {
        match parse_lines(m, lines.drop_last()) {
            ParseOutcome::Done(m1, s1) => {
                let index = (lines.len() - 1) as usize;
                match line_step(m1, s1, index, lines.last()) {
                    Ok((m2, s2)) => ParseOutcome::Done(m2, s2),
                    Err((msg, col)) => ParseOutcome::Failed(m1, msg, index, col),
                }
            },
            failed => failed,
        }
    }
}

/// The data that reading a text leaves: all of it on success, else what the lines before
/// the failing one made.
pub open spec fn parsed_model(m: SsbModel, script: Seq<char>) -> SsbModel {
    match parse_lines(m, lines_of(script)) {
        ParseOutcome::Done(m2, _) => m2,
        ParseOutcome::Failed(m2, _, _, _) => m2,
    }
}

/// Whether `r` is the result that reading a text with outcome `o` gives: `Ok` when all lines
/// were read, else the error of the failing line (its message and position, and no cause).
pub open spec fn parse_result_matches<T>(r: Result<T, ParseError>, o: ParseOutcome) -> bool {
    match o {
        ParseOutcome::Done(_, _) => r is Ok,
        ParseOutcome::Failed(_, msg, line, col) => match r {
            Ok(_) => false,
            Err(e) => e.spec_msg() == msg && e.spec_pos() == Some((line, col as usize))
                && e.spec_source() is None,
        },
    }
}

/// The lines of a suffix: the line up to the next line feed, then the lines after it.
proof fn lemma_lines_of_next(s: Seq<char>, pos: int)
    requires
        0 <= pos < s.len(),
    ensures
        match find_char_from(s, '\n', pos) {
            Some(i) => pos <= i < s.len() && lines_of(s.skip(pos)) == seq![
                strip_cr(s.subrange(pos, i)),
            ] + lines_of(s.skip(i + 1)),
            None => lines_of(s.skip(pos)) == seq![s.skip(pos)],
        },
{
    lemma_find_char_skip(s, '\n', pos, 0);
    lemma_find_char_from(s, '\n', pos);
    match find_char_from(s, '\n', pos) {
        Some(i) => {
            assert(s.skip(pos).take(i - pos) =~= s.subrange(pos, i));
            assert(s.skip(pos).skip(i - pos + 1) =~= s.skip(i + 1));
        },
        None => {},
    }
}

/// Reading one more line.
proof fn lemma_parse_lines_push(m: SsbModel, done: Seq<Seq<char>>, line: Seq<char>)
    requires
        parse_lines(m, done) is Done,
    ensures
        parse_lines(m, done.push(line)) == (match line_step(
            parse_lines(m, done)->Done_0,
            parse_lines(m, done)->Done_1,
            done.len() as usize,
            line,
        ) {
            Ok((m2, s2)) => ParseOutcome::Done(m2, s2),
            Err((msg, col)) => ParseOutcome::Failed(
                parse_lines(m, done)->Done_0,
                msg,
                done.len() as usize,
                col,
            ),
        }),
{
    assert(done.push(line).drop_last() =~= done);
}

/// Once a line failed, later lines change nothing.
proof fn lemma_parse_lines_failed(m: SsbModel, a: Seq<Seq<char>>, b: Seq<Seq<char>>)
    requires
        parse_lines(m, a) is Failed,
    ensures
        parse_lines(m, a + b) == parse_lines(m, a),
    decreases b.len(),
{
    if b.len() == 0 {
        assert(a + b =~= a);
    } else {
        lemma_parse_lines_failed(m, a, b.drop_last());
        assert((a + b).drop_last() =~= a + b.drop_last());
    }
}

/// The data where reading ended, whether all lines were read or one failed.
pub open spec fn outcome_model(o: ParseOutcome) -> SsbModel {
    match o {
        ParseOutcome::Done(m, _) => m,
        ParseOutcome::Failed(m, _, _, _) => m,
    }
}

/// Every event after the first `before.len()` has a time trigger that starts no later than
/// it ends, or an identifier trigger.
pub open spec fn appended_ordered(before: Seq<EventModel>, after: Seq<EventModel>) -> bool {
    forall|i: int|
        before.len() <= i < after.len() ==> match #[trigger] after[i].trigger {
            TriggerModel::Time(start, end) => start <= end,
            TriggerModel::Id(_) => true,
        }
}

proof fn lemma_events_entry_events(m: SsbModel, l: Seq<char>, index: usize)
    ensures
        events_entry(m, l, index) matches Ok(m2) ==> m.events.is_prefix_of(m2.events)
            && appended_ordered(m.events, m2.events),
{
    if let Some(a) = find_char(l, '|') {
        if let Some(b) = find_char_from(l, '|', a + 1) {
            if let Some(c) = find_char_from(l, '|', b + 1) {
                let t = l.take(a);
                if let Ok(tr) = trigger_of(t) {
                    let m2 = events_entry(m, l, index)->Ok_0;
                    assert(m.events =~= m2.events.subrange(0, m.events.len() as int));
                    if let Some(p) = find_char(t, '-') {
                        lemma_timestamp_ms_bound(t.take(p));
                        lemma_timestamp_ms_bound(t.skip(p + 1));
                    }
                    assert(m2.events.len() == m.events.len() + 1);
                }
            }
        }
    }
}

proof fn lemma_line_step_events(m: SsbModel, section: Option<Section>, index: usize, line: Seq<char>)
    ensures
        line_step(m, section, index, line) matches Ok((m2, _)) ==> m.events.is_prefix_of(m2.events)
            && appended_ordered(m.events, m2.events),
{
    reveal(line_step);
    let l = strip_cr(line);
    lemma_events_entry_events(m, l, index);
    assert(m.events =~= m.events.subrange(0, m.events.len() as int));
}

proof fn lemma_parse_lines_events(m: SsbModel, lines: Seq<Seq<char>>)
    ensures
        m.events.is_prefix_of(outcome_model(parse_lines(m, lines)).events),
        appended_ordered(m.events, outcome_model(parse_lines(m, lines)).events),
    decreases lines.len(),
{
    if lines.len() == 0 {
        assert(m.events =~= m.events.subrange(0, m.events.len() as int));
    } else {
        lemma_parse_lines_events(m, lines.drop_last());
        if let ParseOutcome::Done(m1, s1) = parse_lines(m, lines.drop_last()) {
            let index = (lines.len() - 1) as usize;
            lemma_line_step_events(m1, s1, index, lines.last());
            if let Ok((m2, _)) = line_step(m1, s1, index, lines.last()) {
                assert(m.events =~= m2.events.subrange(0, m.events.len() as int));
                assert forall|i: int| m.events.len() <= i < m2.events.len() implies match #[trigger] m2.events[i].trigger {
                    TriggerModel::Time(start, end) => start <= end,
                    TriggerModel::Id(_) => true,
                } by {
                    if i < m1.events.len() {
                        assert(m2.events[i] == m1.events.subrange(0, m1.events.len() as int)[i]);
                        assert(m1.events[i].trigger == m2.events[i].trigger);
                    }
                }
            }
        }
    }
}

/// Reading a script keeps the events that were read before, in their order, and adds the
/// events of the script after them; also where a line fails.
pub proof fn law_parse_appends_events(m: SsbModel, script: Seq<char>)
    ensures
        m.events.is_prefix_of(parsed_model(m, script).events),
{
    lemma_parse_lines_events(m, lines_of(script));
}

/// Every event that reading adds has a time trigger that starts no later than it ends (or an
/// identifier trigger), whatever was read before.
pub proof fn law_parse_orders_triggers(m: SsbModel, script: Seq<char>)
    ensures
        appended_ordered(m.events, parsed_model(m, script).events),
{
    lemma_parse_lines_events(m, lines_of(script));
}

/// Reading two scripts one after the other keeps the events of both, in order: those read
/// before, then those of the first script, then those of the second.
pub proof fn law_parse_chain_accumulates(m: SsbModel, first: Seq<char>, second: Seq<char>)
    ensures
        m.events.is_prefix_of(parsed_model(m, first).events),
        parsed_model(m, first).events.is_prefix_of(
            parsed_model(parsed_model(m, first), second).events,
        ),
{
    lemma_parse_lines_events(m, lines_of(first));
    lemma_parse_lines_events(parsed_model(m, first), lines_of(second));
}

/// `parse_owned` and `parse` agree: where each gives the result its contract states for the
/// same data and script, both succeed or both fail, with the same message and position, and
/// on success both hold the same data.
pub proof fn law_parse_owned_is_parse(
    m: SsbModel,
    script: Seq<char>,
    by_parse: Result<(), ParseError>,
    after_parse: SsbModel,
    by_parse_owned: Result<Ssb, ParseError>,
)
    requires
        parse_result_matches(by_parse, parse_lines(m, lines_of(script))),
        after_parse == parsed_model(m, script),
        parse_result_matches(by_parse_owned, parse_lines(m, lines_of(script))),
        by_parse_owned matches Ok(s) ==> s@ == parsed_model(m, script),
    ensures
        by_parse_owned matches Ok(s) ==> s@ == after_parse,
        by_parse is Ok <==> by_parse_owned is Ok,
        by_parse matches Err(e1) ==> by_parse_owned matches Err(e2) && e1.spec_msg()
            == e2.spec_msg() && e1.spec_pos() == e2.spec_pos(),
{
}

/// Empty lines and comments change neither the data nor the section.
pub proof fn law_blank_and_comment_lines(
    m: SsbModel,
    section: Option<Section>,
    index: usize,
    line: Seq<char>,
)
    requires
        strip_cr(line).len() == 0 || starts_with(strip_cr(line), "//"@),
    ensures
        line_step(m, section, index, line) == Ok::<(SsbModel, Option<Section>), (Seq<char>, nat)>(
            (m, section),
        ),
{
    reveal(line_step);
}

/// A section header line sets its section and changes no data.
pub proof fn law_section_header_line(
    m: SsbModel,
    section: Option<Section>,
    index: usize,
    header: Section,
)
    ensures
        line_step(m, section, index, section_header(header)) == Ok::<
            (SsbModel, Option<Section>),
            (Seq<char>, nat),
        >((m, Some(header))),
{
    reveal(line_step);
    reveal_strlit("//");
    reveal_strlit("#Info");
    reveal_strlit("#Target");
    reveal_strlit("#Macros");
    reveal_strlit("#Events");
    reveal_strlit("#Resources");
    law_section_header_roundtrip(header);
    let h = section_header(header);
    assert(h[0] == '#');
    assert(h.last() != '\r');
    assert(strip_cr(h) == h);
    assert(h.take(2)[0] != '/');
}

/// Once a line fails, later lines change nothing: reading stops there.
pub proof fn law_error_stops_reading(m: SsbModel, before: Seq<Seq<char>>, after: Seq<Seq<char>>)
    requires
        parse_lines(m, before) is Failed,
    ensures
        parse_lines(m, before + after) == parse_lines(m, before),
{
    lemma_parse_lines_failed(m, before, after);
}

/// Whether a call that read an entry did what `expected` says: on success the data became the
/// expected data; on failure the data is unchanged and the error carries the expected message
/// and position, and no cause.
pub open spec fn entry_done(
    r: Result<(), ParseError>,
    expected: EntryResult,
    before: SsbModel,
    after: SsbModel,
    line_index: usize,
) -> bool {
    match expected {
        Ok(m) => r is Ok && after == m,
        Err((msg, col)) => match r {
            Ok(_) => false,
            Err(e) => e.spec_msg() == msg && e.spec_pos() == Some((line_index, col as usize))
                && e.spec_source() is None && after == before,
        },
    }
}

/// A value never falls below the value of one of its prefixes.
pub proof fn lemma_decimal_value_prefix(s: Seq<char>, k: int)
    requires
        0 <= k <= s.len(),
    ensures
        decimal_value(s.take(k)) <= decimal_value(s),
    decreases s.len(),
{
    if k < s.len() {
        lemma_decimal_value_prefix(s.drop_last(), k);
        assert(s.drop_last().take(k) =~= s.take(k));
    } else {
        assert(s.take(k) =~= s);
    }
}

/// `u16_of(v[from..])`, computed.
fn u16_value(v: &Vec<char>, from: usize) -> (r: Option<u16>)
    requires
        from <= v@.len(),
    ensures
        r == u16_of(v@.skip(from as int)),
{
    let ghost s = v@.skip(from as int);
    let mut start = from;
    if start < v.len() && v[start] == '+' {
        start = start + 1;
    }
    let ghost d = v@.skip(start as int);
    assert(d =~= (if s.len() > 0 && s[0] == '+' {
        s.skip(1)
    } else {
        s
    }));
    if start == v.len() {
        return None;
    }
    let mut n: u32 = 0;
    let mut i = start;
    while i < v.len()
        invariant
            from <= start <= i <= v@.len(),
            s == v@.skip(from as int),
            d == v@.skip(start as int),
            d == (if s.len() > 0 && s[0] == '+' {
                s.skip(1)
            } else {
                s
            }),
            n == decimal_value(d.take(i - start)),
            n <= 65535,
            all_digits(d.take(i - start)),
        decreases v.len() - i,
    {
        let c = v[i];
        assert(d[i - start] == c);
        if !(c >= '0' && c <= '9') {
            assert(!is_digit(d[i - start]));
            return None;
        }
        assert(d.take(i - start + 1).drop_last() =~= d.take(i - start));
        assert(digit_value(c) == (c as u32 - '0' as u32));
        n = n * 10 + (c as u32 - '0' as u32);
        proof {
            assert forall|j: int| 0 <= j < i - start + 1 implies is_digit(
                #[trigger] d.take(i - start + 1)[j],
            ) by {
                if j < i - start {
                    assert(d.take(i - start)[j] == d.take(i - start + 1)[j]);
                }
            }
        }
        if n > 65535 {
            proof {
                lemma_decimal_value_prefix(d, i - start + 1);
            }
            return None;
        }
        i = i + 1;
    }
    assert(d.take(i - start) =~= d);
    Some(n as u16)
}

impl Ssb {
    /// Every map of the data holds each key once.
    pub open spec fn wf(&self) -> bool {
        &&& self.info_custom.wf()
        &&& self.macros.wf()
        &&& self.fonts.wf()
        &&& self.textures.wf()
    }
}

impl Default for Ssb {
    fn default() -> (s: Self)
        ensures
            s.wf(),
            s@ == empty_model(),
    {
        let s = Ssb {
            info_title: None,
            info_author: None,
            info_description: None,
            info_version: None,
            info_custom: AssocMap::new(),
            target_width: None,
            target_height: None,
            target_depth: 1000,
            target_view: View::Perspective,
            macros: AssocMap::new(),
            events: Vec::new(),
            fonts: AssocMap::new(),
            textures: AssocMap::new(),
        };
        assert(s@.events =~= Seq::<EventModel>::empty());
        s
    }
}

/// Whether `v` begins with the characters of `key`.
fn has_prefix(v: &Vec<char>, key: &str) -> (r: bool)
    ensures
        r == starts_with(v@, key@),
{
    let k = chars_of(key);
    assert(v@.skip(0) =~= v@);
    starts_with_at(v, 0, &k)
}

/// `key_value(v)`, computed: the key and the value.
fn key_value_exec(v: &Vec<char>) -> (r: Option<(String, String)>)
    ensures
        match r {
            Some((k, x)) => key_value(v@) == Some((k@, x@)),
            None => key_value(v@) is None,
        },
{
    let sep = chars_of(": ");
    proof {
        reveal_strlit(": ");
    }
    match find_seq_exec(v, &sep, 0) {
        Some(p) => {
            if p > 0 {
                proof {
                    crate::text::lemma_find_seq_from(v@, sep@, 0);
                    assert(sep@.len() == 2);
                    assert(find_seq_from(v@, sep@, 0) == Some(p as int));
                    assert(occurs_at(v@, sep@, p as int));
                }
                let n = v.len();
                let k = string_of(v, 0, p);
                let x = string_of(v, p + 2, n);
                assert(k@ =~= v@.take(p as int));
                assert(x@ =~= v@.skip(p + 2));
                Some((k, x))
            } else {
                None
            }
        },
        None => None,
    }
}

impl Ssb {
    /// Reads an entry of the info section.
    fn info_entry_exec(&mut self, v: &Vec<char>, line_index: usize) -> (r: Result<(), ParseError>)
        requires
            old(self).wf(),
        ensures
            final(self).wf(),
            entry_done(r, info_entry(old(self)@, v@), old(self)@, final(self)@, line_index),
    {
        proof {
            reveal_strlit("Title: ");
            reveal_strlit("Author: ");
            reveal_strlit("Description: ");
            reveal_strlit("Version: ");
        }
        if has_prefix(v, "Title: ") {
            let x = string_of(v, 7, v.len());
            assert(x@ =~= v@.skip(7));
            self.info_title = Some(x);
        } else if has_prefix(v, "Author: ") {
            let x = string_of(v, 8, v.len());
            assert(x@ =~= v@.skip(8));
            self.info_author = Some(x);
        } else if has_prefix(v, "Description: ") {
            let x = string_of(v, 13, v.len());
            assert(x@ =~= v@.skip(13));
            self.info_description = Some(x);
        } else if has_prefix(v, "Version: ") {
            let x = string_of(v, 9, v.len());
            assert(x@ =~= v@.skip(9));
            self.info_version = Some(x);
        } else {
            match key_value_exec(v) {
                Some((k, x)) => {
                    self.info_custom.insert(k, x);
                },
                None => {
                    return Err(ParseError::new_with_pos("Invalid info entry!", (line_index, 0)));
                },
            }
        }
        Ok(())
    }

    /// Reads an entry of the target section.
    fn target_entry_exec(&mut self, v: &Vec<char>, line_index: usize) -> (r: Result<
        (),
        ParseError,
    >)
        requires
            old(self).wf(),
        ensures
            final(self).wf(),
            entry_done(r, target_entry(old(self)@, v@), old(self)@, final(self)@, line_index),
    {
        proof {
            reveal_strlit("Width: ");
            reveal_strlit("Height: ");
            reveal_strlit("Depth: ");
            reveal_strlit("View: ");
        }
        if has_prefix(v, "Width: ") {
            match u16_value(v, 7) {
                Some(w) => {
                    self.target_width = Some(w);
                },
                None => {
                    return Err(
                        ParseError::new_with_pos("Invalid target width value!", (line_index, 7)),
                    );
                },
            }
        } else if has_prefix(v, "Height: ") {
            match u16_value(v, 8) {
                Some(h) => {
                    self.target_height = Some(h);
                },
                None => {
                    return Err(
                        ParseError::new_with_pos("Invalid target height value!", (line_index, 8)),
                    );
                },
            }
        } else if has_prefix(v, "Depth: ") {
            match u16_value(v, 7) {
                Some(d) => {
                    self.target_depth = d;
                },
                None => {
                    return Err(
                        ParseError::new_with_pos("Invalid target depth value!", (line_index, 7)),
                    );
                },
            }
        } else if has_prefix(v, "View: ") {
            let x = string_of(v, 6, v.len());
            assert(x@ =~= v@.skip(6));
            match View::try_from(x.as_str()) {
                Ok(view) => {
                    self.target_view = view;
                },
                Err(()) => {
                    return Err(
                        ParseError::new_with_pos("Invalid target view value!", (line_index, 6)),
                    );
                },
            }
        } else {
            return Err(ParseError::new_with_pos("Invalid target entry!", (line_index, 0)));
        }
        Ok(())
    }

    /// Reads an entry of the macros section.
    fn macros_entry_exec(&mut self, v: &Vec<char>, line_index: usize) -> (r: Result<
        (),
        ParseError,
    >)
        requires
            old(self).wf(),
        ensures
            final(self).wf(),
            entry_done(r, macros_entry(old(self)@, v@), old(self)@, final(self)@, line_index),
    {
        match key_value_exec(v) {
            Some((k, x)) => {
                self.macros.insert(k, x);
                Ok(())
            },
            None => Err(ParseError::new_with_pos("Invalid macros entry!", (line_index, 0))),
        }
    }
}

/// The byte length of the text before the data of an event: three fields and three separators.
proof fn lemma_event_prefix_len(l: Seq<char>, a: int, b: int, c: int)
    requires
        0 <= a < b < c < l.len(),
        l[a] == '|',
        l[b] == '|',
        l[c] == '|',
    ensures
        utf8_len(l.take(a)) + utf8_len(l.subrange(a + 1, b)) + utf8_len(l.subrange(b + 1, c)) + 3
            <= utf8_len(l),
{
    let bar = seq!['|'];
    lemma_utf8_len_single('|');
    assert(l.take(c + 1) =~= l.take(a) + bar + l.subrange(a + 1, b) + bar + l.subrange(b + 1, c)
        + bar);
    lemma_utf8_len_concat(l.take(a), bar);
    lemma_utf8_len_concat(l.take(a) + bar, l.subrange(a + 1, b));
    lemma_utf8_len_concat(l.take(a) + bar + l.subrange(a + 1, b), bar);
    lemma_utf8_len_concat(l.take(a) + bar + l.subrange(a + 1, b) + bar, l.subrange(b + 1, c));
    lemma_utf8_len_concat(
        l.take(a) + bar + l.subrange(a + 1, b) + bar + l.subrange(b + 1, c),
        bar,
    );
    lemma_utf8_len_subrange(l, 0, c + 1);
    assert(l.subrange(0, c + 1) =~= l.take(c + 1));
}

/// Reads the trigger `v[0..a]` of an event.
fn trigger_exec(v: &Vec<char>, a: usize) -> (r: Result<EventTrigger, (&'static str, usize)>)
    requires
        a <= v@.len(),
        utf8_len(v@) <= usize::MAX,
    ensures
        match trigger_of(v@.take(a as int)) {
            Ok(t) => r matches Ok(x) && x@ == t,
            Err((msg, col)) => r matches Err((m, c)) && m@ == msg && c == col,
        },
{
    let ghost t = v@.take(a as int);
    assert(v@.subrange(0, a as int) =~= t);
    if a >= 2 && v[0] == '\'' && v[a - 1] == '\'' {
        let id = string_of(v, 1, a - 1);
        assert(id@ =~= t.subrange(1, t.len() - 1));
        return Ok(EventTrigger::Id(id));
    }
    match find_char_in(v, '-', 0, a) {
        None => Err(("Invalid trigger format!", 0)),
        Some(p) => {
            let start_text = string_of(v, 0, p);
            assert(start_text@ =~= t.take(p as int));
            match parse_timestamp(start_text.as_str()) {
                Err(()) => Err(("Start timestamp invalid!", 0)),
                Ok(start) => {
                    let end_text = string_of(v, p + 1, a);
                    assert(end_text@ =~= t.skip(p + 1));
                    match parse_timestamp(end_text.as_str()) {
                        Err(()) => {
                            proof {
                                lemma_utf8_len_subrange(v@, 0, p as int);
                            }
                            let col = utf8_len_exec(v, 0, p);
                            assert(v@.subrange(0, p as int) =~= t.take(p as int));
                            proof {
                                lemma_utf8_len_subrange(v@, 0, p + 1);
                                lemma_utf8_len_concat(v@.subrange(0, p as int), seq![v@[p as int]]);
                                assert(v@.subrange(0, p + 1) =~= v@.subrange(0, p as int) + seq![v@[p as int]]);
                                lemma_utf8_len_single(v@[p as int]);
                            }
                            Err(("End timestamp invalid!", col + 1))
                        },
                        Ok(end) => {
                            if start > end {
                                Err(("Start time greater than end time!", 0))
                            } else {
                                Ok(EventTrigger::Time((start, end)))
                            }
                        },
                    }
                },
            }
        },
    }
}

impl Ssb {
    /// Reads an entry of the events section.
    fn events_entry_exec(&mut self, v: &Vec<char>, line_index: usize) -> (r: Result<
        (),
        ParseError,
    >)
        requires
            old(self).wf(),
            utf8_len(v@) <= usize::MAX,
        ensures
            final(self).wf(),
            entry_done(
                r,
                events_entry(old(self)@, v@, line_index),
                old(self)@,
                final(self)@,
                line_index,
            ),
    {
        let n = v.len();
        let a = match find_char_exec(v, '|', 0) {
            Some(a) => a,
            None => {
                return Err(ParseError::new_with_pos("Invalid events entry!", (line_index, 0)));
            },
        };
        let b = match find_char_exec(v, '|', a + 1) {
            Some(b) => b,
            None => {
                return Err(ParseError::new_with_pos("Invalid events entry!", (line_index, 0)));
            },
        };
        let c = match find_char_exec(v, '|', b + 1) {
            Some(c) => c,
            None => {
                return Err(ParseError::new_with_pos("Invalid events entry!", (line_index, 0)));
            },
        };
        let trigger = match trigger_exec(v, a) {
            Ok(t) => t,
            Err((msg, col)) => {
                return Err(ParseError::new_with_pos(msg, (line_index, col)));
            },
        };
        let macro_name = if b > a + 1 {
            Some(string_of(v, a + 1, b))
        } else {
            None
        };
        let note = if c > b + 1 {
            Some(string_of(v, b + 1, c))
        } else {
            None
        };
        let data = string_of(v, c + 1, n);
        proof {
            lemma_event_prefix_len(v@, a as int, b as int, c as int);
            lemma_utf8_len_subrange(v@, 0, a as int);
        }
        let column = utf8_len_exec(v, 0, a) + utf8_len_exec(v, a + 1, b) + utf8_len_exec(
            v,
            b + 1,
            c,
        ) + 3;
        assert(v@.subrange(0, a as int) =~= v@.take(a as int));
        assert(data@ =~= v@.skip(c + 1));
        let event = Event {
            trigger,
            macro_name,
            note,
            data,
            data_location: (line_index, column),
        };
        let ghost old_events = self.events@;
        self.events.push(event);
        assert(self.events@.map_values(|e: Event| e@) =~= old_events.map_values(|e: Event| e@).push(
            event@,
        ));
        Ok(())
    }
}

/// `base64::decode`, with its error dropped: the bytes that `input` denotes in the standard
/// base64 alphabet with padding, or `None` where it is not such base64. Claimed: the result is
/// the one that `base64_decoded` names for the input; it panics only where the input's byte
/// length plus 7 overflows, which `requires` rules out.
#[verifier::external_body]
fn decode_base64(input: &str) -> (r: Option<Vec<u8>>)
    requires
        utf8_len(input@) + 7 <= usize::MAX,
    ensures
        opt_bytes(r) == base64_decoded(input@),
{
    base64::decode(input).ok()
}

impl Ssb {
    /// Registers a font whose data was decoded from base64, `None` standing for data that was
    /// not base64, which is an error at byte column `column` of line `line_index`.
    pub fn add_font(
        &mut self,
        face: FontFace,
        decoded: Option<FontData>,
        line_index: usize,
        column: usize,
    ) -> (r: Result<(), ParseError>)
        requires
            old(self).wf(),
        ensures
            final(self).wf(),
            entry_done(
                r,
                font_added(old(self)@, face@, opt_bytes(decoded), column as nat),
                old(self)@,
                final(self)@,
                line_index,
            ),
    {
        match decoded {
            Some(data) => {
                self.fonts.insert(face, data);
                Ok(())
            },
            None => Err(
                ParseError::new_with_pos("Font data not in base64 format!", (line_index, column)),
            ),
        }
    }

    /// Registers texture data decoded from base64, `None` standing for data that was not
    /// base64, which is an error at byte column `column` of line `line_index`.
    pub fn add_texture_data(
        &mut self,
        id: TextureId,
        decoded: Option<TextureData>,
        line_index: usize,
        column: usize,
    ) -> (r: Result<(), ParseError>)
        requires
            old(self).wf(),
        ensures
            final(self).wf(),
            entry_done(
                r,
                texture_added(old(self)@, id@, opt_bytes(decoded), column as nat),
                old(self)@,
                final(self)@,
                line_index,
            ),
    {
        match decoded {
            Some(data) => {
                self.textures.insert(id, TextureDataVariant::Raw(data));
                Ok(())
            },
            None => Err(
                ParseError::new_with_pos(
                    "Texture data not in base64 format!",
                    (line_index, column),
                ),
            ),
        }
    }

    /// Reads an entry of the resources section.
    fn resources_entry_exec(&mut self, v: &Vec<char>, line_index: usize) -> (r: Result<
        (),
        ParseError,
    >)
        requires
            old(self).wf(),
            utf8_len(v@) + 7 <= usize::MAX,
        ensures
            final(self).wf(),
            entry_done(r, resources_entry(old(self)@, v@), old(self)@, final(self)@, line_index),
    {
        proof {
            reveal_strlit("Font: ");
            reveal_strlit("Texture: ");
        }
        let n = v.len();
        if has_prefix(v, "Font: ") {
            let ghost rest = v@.skip(6);
            proof {
                lemma_find_char_skip(v@, ',', 6, 0);
            }
            let a = match find_char_exec(v, ',', 6) {
                Some(a) => a,
                None => {
                    return Err(
                        ParseError::new_with_pos(
                            "Font family, style and data expected!",
                            (line_index, 6),
                        ),
                    );
                },
            };
            proof {
                lemma_find_char_skip(v@, ',', 6, a - 6 + 1);
            }
            let b = match find_char_exec(v, ',', a + 1) {
                Some(b) => b,
                None => {
                    return Err(
                        ParseError::new_with_pos(
                            "Font family, style and data expected!",
                            (line_index, 6),
                        ),
                    );
                },
            };
            let family = string_of(v, 6, a);
            let style_text = string_of(v, a + 1, b);
            assert(family@ =~= rest.take(a - 6));
            assert(style_text@ =~= rest.subrange(a - 6 + 1, b - 6));
            proof {
                lemma_two_fields_len(v@, 6, a as int, b as int);
                lemma_utf8_len_subrange(v@, 6, a as int);
                lemma_utf8_len_subrange(v@, a + 1, b as int);
                lemma_utf8_len_subrange(v@, b + 1, n as int);
            }
            let family_len = utf8_len_exec(v, 6, a);
            let style = match FontStyle::try_from(style_text.as_str()) {
                Ok(st) => st,
                Err(()) => {
                    return Err(
                        ParseError::new_with_pos("Font style invalid!", (line_index, family_len + 7)),
                    );
                },
            };
            let data = string_of(v, b + 1, n);
            assert(data@ =~= rest.skip(b - 6 + 1));
            let decoded = decode_base64(data.as_str());
            let column = family_len + utf8_len_exec(v, a + 1, b) + 8;
            self.add_font(FontFace { family, style }, decoded, line_index, column)
        } else if has_prefix(v, "Texture: ") {
            let ghost rest = v@.skip(9);
            proof {
                lemma_find_char_skip(v@, ',', 9, 0);
            }
            let a = match find_char_exec(v, ',', 9) {
                Some(a) => a,
                None => {
                    return Err(
                        ParseError::new_with_pos(
                            "Texture id, data type and data expected!",
                            (line_index, 9),
                        ),
                    );
                },
            };
            proof {
                lemma_find_char_skip(v@, ',', 9, a - 9 + 1);
            }
            let b = match find_char_exec(v, ',', a + 1) {
                Some(b) => b,
                None => {
                    return Err(
                        ParseError::new_with_pos(
                            "Texture id, data type and data expected!",
                            (line_index, 9),
                        ),
                    );
                },
            };
            let id = string_of(v, 9, a);
            let data_type = string_of(v, a + 1, b);
            let data = string_of(v, b + 1, n);
            assert(id@ =~= rest.take(a - 9));
            assert(data_type@ =~= rest.subrange(a - 9 + 1, b - 9));
            assert(data@ =~= rest.skip(b - 9 + 1));
            proof {
                lemma_two_fields_len(v@, 9, a as int, b as int);
                lemma_utf8_len_subrange(v@, 9, a as int);
                lemma_utf8_len_subrange(v@, a + 1, b as int);
                lemma_utf8_len_subrange(v@, b + 1, n as int);
            }
            let id_len = utf8_len_exec(v, 9, a);
            match TextureDataType::try_from(data_type.as_str()) {
                Ok(TextureDataType::Raw) => {
                    let decoded = decode_base64(data.as_str());
                    let column = id_len + utf8_len_exec(v, a + 1, b) + 11;
                    self.add_texture_data(id, decoded, line_index, column)
                },
                Ok(TextureDataType::Url) => {
                    self.textures.insert(id, TextureDataVariant::Url(data));
                    Ok(())
                },
                Err(()) => Err(
                    ParseError::new_with_pos("Texture data type invalid!", (line_index, id_len + 10)),
                ),
            }
        } else {
            Err(ParseError::new_with_pos("Invalid resources entry!", (line_index, 0)))
        }
    }
}

impl Ssb {
    /// Reads line `line_index` of a script, in the section that `section` holds, which a
    /// section header changes.
    pub fn parse_line(&mut self, section: &mut Option<Section>, line_index: usize, line: &str) -> (r:
        Result<(), ParseError>)
        requires
            old(self).wf(),
            utf8_len(line@) + 7 <= usize::MAX,
        ensures
            final(self).wf(),
            match line_step(old(self)@, *old(section), line_index, line@) {
                Ok((m, s)) => r is Ok && final(self)@ == m && *final(section) == s,
                Err((msg, col)) => match r {
                    Ok(_) => false,
                    Err(e) => e.spec_msg() == msg && e.spec_pos() == Some((line_index, col as usize))
                        && e.spec_source() is None && final(self)@ == old(self)@
                        && *final(section) == *old(section),
                },
            },
    {
        let mut v = chars_of(line);
        proof {
            reveal_strlit("//");
            reveal(line_step);
        }
        if v.len() > 0 && v[v.len() - 1] == '\r' {
            v.pop();
        }
        let ghost l = v@;
        assert(l =~= strip_cr(line@));
        proof {
            lemma_utf8_len_subrange(line@, 0, l.len() as int);
            assert(line@.subrange(0, l.len() as int) =~= l);
        }
        if v.len() == 0 || has_prefix(&v, "//") {
            return Ok(());
        }
        let text = string_of(&v, 0, v.len());
        assert(text@ =~= l);
        match Section::try_from(text.as_str()) {
            Ok(s) => {
                *section = Some(s);
                return Ok(());
            },
            Err(()) => {},
        }
        match *section {
            None => Err(ParseError::new_with_pos("No section set!", (line_index, 0))),
            Some(Section::Info) => self.info_entry_exec(&v, line_index),
            Some(Section::Target) => self.target_entry_exec(&v, line_index),
            Some(Section::Macros) => self.macros_entry_exec(&v, line_index),
            Some(Section::Events) => self.events_entry_exec(&v, line_index),
            Some(Section::Resources) => self.resources_entry_exec(&v, line_index),
        }
    }

    /// Reads a script line by line (see `lines_of`) into the data, starting with no section
    /// set; stops at the first line in error, leaving what the lines before it read.
    pub fn parse(&mut self, script: &str) -> (r: Result<(), ParseError>)
        requires
            old(self).wf(),
            utf8_len(script@) + 7 <= usize::MAX,
        ensures
            final(self).wf(),
            final(self)@ == parsed_model(old(self)@, script@),
            parse_result_matches(r, parse_lines(old(self)@, lines_of(script@))),
    {
        let v = chars_of(script);
        let ghost m0 = self@;
        let ghost all = lines_of(v@);
        let ghost mut done: Seq<Seq<char>> = Seq::empty();
        let mut section: Option<Section> = None;
        let mut pos: usize = 0;
        let mut index: usize = 0;
        assert(v@.skip(0) =~= v@);
        assert(done + lines_of(v@.skip(0)) =~= all);
        while pos < v.len()
            invariant
                pos <= v@.len(),
                index == done.len(),
                index <= pos,
                v@ == script@,
                utf8_len(v@) + 7 <= usize::MAX,
                all == lines_of(v@),
                all == done + lines_of(v@.skip(pos as int)),
                parse_lines(m0, done) == ParseOutcome::Done(self@, section),
                m0 == old(self)@,
                self.wf(),
            decreases v.len() - pos,
        {
            proof {
                lemma_lines_of_next(v@, pos as int);
            }
            let found = find_char_exec(&v, '\n', pos);
            let end = match found {
                Some(i) => i,
                None => v.len(),
            };
            let mut line_end = end;
            if end < v.len() && line_end > pos && v[line_end - 1] == '\r' {
                line_end = line_end - 1;
            }
            let line = string_of(&v, pos, line_end);
            let ghost next = if end < v.len() {
                end + 1
            } else {
                v@.len() as int
            };
            proof {
                if end < v.len() {
                    assert(line@ =~= strip_cr(v@.subrange(pos as int, end as int)));
                } else {
                    assert(line@ =~= v@.skip(pos as int));
                    assert(v@.skip(next) =~= Seq::<char>::empty());
                }
                assert(lines_of(v@.skip(pos as int)) =~= seq![line@] + lines_of(v@.skip(next)));
                lemma_utf8_len_subrange(v@, pos as int, line_end as int);
            }
            let ghost before = self@;
            let ghost section_before = section;
            let r = self.parse_line(&mut section, index, line.as_str());
            proof {
                lemma_parse_lines_push(m0, done, line@);
            }
            match r {
                Err(e) => {
                    proof {
                        let d2 = done.push(line@);
                        assert(all =~= d2 + lines_of(v@.skip(next)));
                        lemma_parse_lines_failed(m0, d2, lines_of(v@.skip(next)));
                    }
                    return Err(e);
                },
                Ok(()) => {},
            }
            proof {
                assert(done.push(line@) + lines_of(v@.skip(next)) =~= all);
                done = done.push(line@);
            }
            pos = if end < v.len() {
                end + 1
            } else {
                v.len()
            };
            index = index + 1;
        }
        assert(v@.skip(pos as int) =~= Seq::<char>::empty());
        assert(done =~= all);
        Ok(())
    }

    /// Reads a script into the data, which it takes and gives back (see `parse`).
    pub fn parse_owned(self, script: &str) -> (r: Result<Ssb, ParseError>)
        requires
            self.wf(),
            utf8_len(script@) + 7 <= usize::MAX,
        ensures
            parse_result_matches(r, parse_lines(self@, lines_of(script@))),
            r matches Ok(s) ==> s.wf() && s@ == parsed_model(self@, script@),
    {
        let mut s = self;
        match s.parse(script) {
            Ok(()) => Ok(s),
            Err(e) => Err(e),
        }
    }
}

} // verus!
