use vstd::prelude::*;
use vstd::utf8::{decode_utf8, encode_utf8, is_char_boundary};
use pulldown_cmark::{Event, Options, Parser, Tag};
use regex::Regex;
use crate::consts::{NUM_PATTERNS, NUM_STEPS};
use crate::midi_note::{MidiNote, NoteNameError, spec_note_from_name, wrap_u8};
use crate::pattern::{InstrumentView, Pattern, id_position, with_instrument};
use crate::sequencer::{SequencerSong, SongView, spec_default_song, song_structure_wf, instruments_wf};
use crate::step::InstrumentStep;
use crate::text::{chars_of, trimmed, trim_chars, spec_parse_in_range, parse_int, string_from_chars};

verus! {

/// The kinds of markdown elements that a song file gives meaning to.
#[derive(Clone, Copy, Debug, PartialEq, Eq, Structural)]
pub enum MdTag {
    Heading,
    Table,
    TableHead,
    TableRow,
    TableCell,
    Item,
    Other,
}

/// A markdown parsing event, with the byte offsets into the source that the song reader uses.
pub enum MdEvent {
    Start(MdTag),
    /// The end of an element, with the byte offset where the element starts.
    End(MdTag, usize),
    /// Text, with the byte range of the source it was read from.
    Text(String, usize, usize),
    /// Inline code.
    Code(String),
    Other,
}

/// A markdown event as plain values.
pub enum MdEventView {
    Start(MdTag),
    End(MdTag, usize),
    Text(Seq<char>, usize, usize),
    Code(Seq<char>),
    Other,
}

impl View for MdEvent {
    type V = MdEventView;

    open spec fn view(&self) -> MdEventView {
        match self {
            MdEvent::Start(t) => MdEventView::Start(*t),
            MdEvent::End(t, s) => MdEventView::End(*t, *s),
            MdEvent::Text(x, s, e) => MdEventView::Text(x@, *s, *e),
            MdEvent::Code(x) => MdEventView::Code(x@),
            MdEvent::Other => MdEventView::Other,
        }
    }
}

/// The plain values of a sequence of events.
pub open spec fn event_views(v: Seq<MdEvent>) -> Seq<MdEventView> {
    Seq::new(v.len(), |i: int| v[i]@)
}

/// The events that `pulldown_cmark` reads from a markdown text with tables enabled.
pub uninterp spec fn spec_markdown_events(source: Seq<char>) -> Seq<MdEventView>;

/// Reads markdown with `pulldown_cmark::Parser::new_ext` (tables enabled) and
/// `into_offset_iter`. The events are stated only by name: they are what that parser gives
/// for the text, each kept with the offsets the song reader needs.
#[verifier::external_body]
fn markdown_events(source: &str) -> (r: Vec<MdEvent>)
    ensures
        event_views(r@) == spec_markdown_events(source@),
{
    let tag = |t: &Tag| match t {
        Tag::Heading(..) => MdTag::Heading, Tag::Table(_) => MdTag::Table,
        Tag::TableHead => MdTag::TableHead, Tag::TableRow => MdTag::TableRow,
        Tag::TableCell => MdTag::TableCell, Tag::Item => MdTag::Item, _ => MdTag::Other,
    };
    Parser::new_ext(source, Options::ENABLE_TABLES).into_offset_iter().map(|(e, r)| match e {
        Event::Start(t) => MdEvent::Start(tag(&t)), Event::End(t) => MdEvent::End(tag(&t), r.start),
        Event::Text(s) => MdEvent::Text(s.to_string(), r.start, r.end),
        Event::Code(s) => MdEvent::Code(s.to_string()), _ => MdEvent::Other,
    }).collect()
}

/// The capture groups of the leftmost match of a regular expression in a text, as
/// `regex` finds them; `None` when nothing matches.
pub uninterp spec fn spec_regex_captures(pattern: Seq<char>, text: Seq<char>) -> Option<Seq<Option<Seq<char>>>>;

/// The plain values of capture groups.
pub open spec fn groups_view(g: Option<Vec<Option<String>>>) -> Option<Seq<Option<Seq<char>>>> {
    match g {
        Some(v) => Some(Seq::new(v@.len(), |i: int| match v@[i] {
            Some(s) => Some(s@),
            None => None,
        })),
        None => None,
    }
}

/// Builds the regular expression with `regex::Regex::new` and looks for its leftmost
/// match in `text` with `Regex::captures`. The groups are stated only by name; a pattern
/// that does not compile gives `None`.
#[verifier::external_body]
fn regex_captures(pattern: &str, text: &str) -> (r: Option<Vec<Option<String>>>)
    ensures
        groups_view(r) == spec_regex_captures(pattern@, text@),
{
    let caps = Regex::new(pattern).ok()?.captures(text)?;
    Some(caps.iter().map(|m| m.map(|m| m.as_str().to_string())).collect())
}

/// Group `i` of a match, if the match and that group exist.
pub open spec fn captured_group(caps: Option<Seq<Option<Seq<char>>>>, i: int) -> Option<Seq<char>> {
    match caps {
        Some(g) => if 0 <= i < g.len() {
            g[i]
        } else {
            None
        },
        None => None,
    }
}

/// The characters between byte offsets `start` and `end` of the UTF-8 encoding of `s`,
/// when both offsets fall on character boundaries in order.
pub open spec fn str_slice(s: Seq<char>, start: int, end: int) -> Option<Seq<char>> {
    let bytes = encode_utf8(s);
    if start <= end <= bytes.len() && is_char_boundary(bytes, start) && is_char_boundary(bytes, end) {
        Some(decode_utf8(bytes.subrange(start, end)))
    } else {
        None
    }
}

/// The part of `s` between two byte offsets (`str::get`), which is `None` exactly when
/// the offsets are out of order, past the end, or inside a character.
#[verifier::external_body]
pub(crate) fn str_get(s: &str, start: usize, end: usize) -> (r: Option<String>)
    ensures
        match r {
            Some(t) => str_slice(s@, start as int, end as int) == Some(t@),
            None => str_slice(s@, start as int, end as int) is None,
        },
{
    s.get(start..end).map(|t| t.to_string())
}

/// The heading text that names a pattern, and the song list items that refer to one.
pub const PATTERN_RE: &'static str = "Pattern (\\d+)";

/// A song setting list item: a name, a colon and a value.
pub const SETTING_RE: &'static str = "(\\w+): (.*)";

/// The setting that names the instruments file.
pub const INSTRUMENTS_FILE_SETTING: &'static str = "InstrumentsFile";

/// The setting that gives the number of frames per step.
pub const FRAMES_PER_STEP_SETTING: &'static str = "FramesPerStep";

/// The section of the song file being read.
#[derive(Clone, Copy, Debug, PartialEq, Eq, Structural)]
pub enum Section {
    Other,
    Song,
    /// The pattern with this number, counted from 0.
    Pattern(usize),
    Settings,
}

/// Why a song file could not be read.
#[derive(Debug)]
pub enum SongParseError {
    /// A pattern's steps table has more than sixteen rows.
    TooManyRows,
    /// A pattern's steps table does not have exactly sixteen rows.
    WrongRowCount,
    /// A pattern heading names a pattern outside `1..=64`.
    PatternOutOfRange(String),
    /// A song list item does not name a pattern, or names pattern 0.
    InvalidSongPattern(String),
    /// A number could not be read.
    InvalidNumber(String),
    /// A step holds text that is not a note name.
    InvalidNote(NoteNameError),
    /// A settings item does not have the form `Name: Value`.
    InvalidSetting(String),
    /// The frames per step setting is not an unsigned integer.
    InvalidFramesPerStep(String),
    /// A step's parameters hold more than two values.
    TooManyParams(String),
    /// A step cell has no instrument identifier in its column's header.
    MissingInstrumentId,
    /// A step cell lies outside the sixteen steps of a pattern.
    InvalidStepRow,
    /// An offset of the markdown reader falls outside the text or inside a character.
    InvalidOffset,
    /// The settings do not name the instruments file.
    MissingInstrumentsFile,
    /// The song list names a pattern above 64, which does not exist.
    SongPlaysMissingPattern,
}

/// A song file error as plain values.
pub enum SongParseErrorView {
    TooManyRows,
    WrongRowCount,
    PatternOutOfRange(Seq<char>),
    InvalidSongPattern(Seq<char>),
    InvalidNumber(Seq<char>),
    InvalidNote(NoteNameError),
    InvalidSetting(Seq<char>),
    InvalidFramesPerStep(Seq<char>),
    TooManyParams(Seq<char>),
    MissingInstrumentId,
    InvalidStepRow,
    InvalidOffset,
    MissingInstrumentsFile,
    SongPlaysMissingPattern,
}

impl View for SongParseError {
    type V = SongParseErrorView;

    open spec fn view(&self) -> SongParseErrorView {
        match self {
            SongParseError::TooManyRows => SongParseErrorView::TooManyRows,
            SongParseError::WrongRowCount => SongParseErrorView::WrongRowCount,
            SongParseError::PatternOutOfRange(t) => SongParseErrorView::PatternOutOfRange(t@),
            SongParseError::InvalidSongPattern(t) => SongParseErrorView::InvalidSongPattern(t@),
            SongParseError::InvalidNumber(t) => SongParseErrorView::InvalidNumber(t@),
            SongParseError::InvalidNote(e) => SongParseErrorView::InvalidNote(*e),
            SongParseError::InvalidSetting(t) => SongParseErrorView::InvalidSetting(t@),
            SongParseError::InvalidFramesPerStep(t) => SongParseErrorView::InvalidFramesPerStep(t@),
            SongParseError::TooManyParams(t) => SongParseErrorView::TooManyParams(t@),
            SongParseError::MissingInstrumentId => SongParseErrorView::MissingInstrumentId,
            SongParseError::InvalidStepRow => SongParseErrorView::InvalidStepRow,
            SongParseError::InvalidOffset => SongParseErrorView::InvalidOffset,
            SongParseError::MissingInstrumentsFile => SongParseErrorView::MissingInstrumentsFile,
            SongParseError::SongPlaysMissingPattern => SongParseErrorView::SongPlaysMissingPattern,
        }
    }
}

/// What the song reader has read so far, as plain values.
pub struct ParserView {
    pub section: Section,
    pub table_column: Option<usize>,
    pub table_row: Option<usize>,
    /// The instrument identifiers of the header of the table being read.
    pub ids: Seq<Seq<char>>,
    /// Whether a known section heading was met, which ends the free text at the top.
    pub found_known: bool,
    pub tag_stack: Seq<MdTag>,
    pub out: SongView,
}

/// The reader's state before the first event.
pub open spec fn initial_parser() -> ParserView {
    ParserView {
        section: Section::Other,
        table_column: None,
        table_row: None,
        ids: Seq::empty(),
        found_known: false,
        tag_stack: Seq::empty(),
        out: spec_default_song(),
    }
}

/// The state after an element starts: a table row or cell advances the row or column
/// counter, and the element joins the stack of open elements. A pattern's table may not
/// have more than sixteen rows.
pub open spec fn spec_start(st: ParserView, tag: MdTag) -> Result<ParserView, SongParseErrorView> {
    let pushed = ParserView { tag_stack: st.tag_stack.push(tag), ..st };
    if tag == MdTag::TableRow {
        match st.table_row {
            Some(r) => if st.section is Pattern && r >= 15 {
                Err(SongParseErrorView::TooManyRows)
            } else {
                Ok(ParserView { table_row: Some((r + 1) as usize), ..pushed })
            },
            None => Ok(ParserView { table_row: Some(0), ..pushed }),
        }
    } else if tag == MdTag::TableCell {
        Ok(ParserView {
            table_column: match st.table_column {
                Some(c) => Some((c + 1) as usize),
                None => Some(0),
            },
            ..pushed
        })
    } else {
        Ok(pushed)
    }
}

/// The state after an element ends: the first heading of a known section ends the free
/// text at the top of the file, which is kept; a pattern's table must have had exactly
/// sixteen rows.
pub open spec fn spec_end(source: Seq<char>, st: ParserView, tag: MdTag, start: usize) -> Result<ParserView, SongParseErrorView> {
    let popped = ParserView {
        tag_stack: if st.tag_stack.len() > 0 { st.tag_stack.drop_last() } else { st.tag_stack },
        ..st
    };
    if tag == MdTag::Heading {
        if !st.found_known && st.section != Section::Other {
            match str_slice(source, 0, start as int) {
                Some(h) => Ok(ParserView {
                    found_known: true,
                    out: SongView { markdown_header: h, ..st.out },
                    ..popped
                }),
                None => Err(SongParseErrorView::InvalidOffset),
            }
        } else {
            Ok(popped)
        }
    } else if tag == MdTag::Table {
        if st.section is Pattern && st.table_row != Some(15usize) {
            Err(SongParseErrorView::WrongRowCount)
        } else {
            Ok(ParserView { table_row: None, ids: Seq::empty(), ..popped })
        }
    } else if tag == MdTag::TableRow || tag == MdTag::TableHead {
        Ok(ParserView { table_column: None, ..popped })
    } else {
        Ok(popped)
    }
}

/// Reads a decimal `usize` as `str::parse` does.
pub open spec fn parse_usize(s: Seq<char>) -> Option<int> {
    spec_parse_in_range(s, false, 0, usize::MAX as int)
}

/// The section that a heading text opens: a pattern for `Pattern <n>` with `n` in
/// `1..=64`, the song or the settings for those words, else an unknown section.
pub open spec fn spec_heading(text: Seq<char>) -> Result<Section, SongParseErrorView> {
    match captured_group(spec_regex_captures(PATTERN_RE@, text), 1) {
        Some(g) => match parse_usize(g) {
            Some(num) => if num == 0 || num > NUM_PATTERNS {
                Err(SongParseErrorView::PatternOutOfRange(text))
            } else {
                Ok(Section::Pattern((num - 1) as usize))
            },
            None => Err(SongParseErrorView::InvalidNumber(g)),
        },
        None => if text == "Song"@ {
            Ok(Section::Song)
        } else if text == "Settings"@ {
            Ok(Section::Settings)
        } else {
            Ok(Section::Other)
        },
    }
}

/// The pattern number, counted from 0, that a song list item names. A number above 64 is
/// kept as it is: the song then plays a pattern that does not exist, which the sequencer
/// refuses when it loads the song (see `Sequencer::load_str`).
pub open spec fn spec_song_item(text: Seq<char>) -> Result<usize, SongParseErrorView> {
    match captured_group(spec_regex_captures(PATTERN_RE@, text), 1) {
        Some(g) => match parse_usize(g) {
            Some(num) => if num == 0 {
                Err(SongParseErrorView::InvalidSongPattern(text))
            } else {
                Ok((num - 1) as usize)
            },
            None => Err(SongParseErrorView::InvalidNumber(g)),
        },
        None => Err(SongParseErrorView::InvalidSongPattern(text)),
    }
}

/// The text of a step cell without a final `.`, trimmed, and whether the `.` (a release)
/// was there.
pub open spec fn step_text(text: Seq<char>) -> (Seq<char>, bool) {
    if text.len() > 0 && text.last() == '.' {
        (trimmed(text.drop_last()), true)
    } else {
        (trimmed(text), false)
    }
}

/// A step after reading its cell's text: a note name (other than `-`) sets the note, and
/// a final `.` sets the release.
pub open spec fn spec_step_text(step: InstrumentStep, text: Seq<char>) -> Result<InstrumentStep, SongParseErrorView> {
    let (t, period) = step_text(text);
    let with_note = if t.len() > 0 && t != "-"@ {
        match spec_note_from_name(t) {
            Ok(n) => Ok(InstrumentStep { note: wrap_u8(n) as u8, ..step }),
            Err(e) => Err(SongParseErrorView::InvalidNote(e)),
        }
    } else {
        Ok(step)
    };
    match with_note {
        Ok(s) => Ok(if period { InstrumentStep { release: true, ..s } } else { s }),
        Err(e) => Err(e),
    }
}

/// The parts of `s` between the `/` characters (`str::split('/')`).
pub open spec fn split_slash(s: Seq<char>) -> Seq<Seq<char>>
    decreases s.len(),
{
    if s.len() == 0 {
        seq![Seq::empty()]
    } else {
        let rest = split_slash(s.drop_last());
        if s.last() == '/' {
            rest.push(Seq::empty())
        } else {
            rest.update(rest.len() - 1, rest.last().push(s.last()))
        }
    }
}

/// A parameter value: none for an empty part, else an `i8`.
pub open spec fn spec_param_value(part: Seq<char>) -> Result<Option<i8>, SongParseErrorView> {
    if part.len() == 0 {
        Ok(None)
    } else {
        match spec_parse_in_range(part, true, -128, 127) {
            Some(v) => Ok(Some(v as i8)),
            None => Err(SongParseErrorView::InvalidNumber(part)),
        }
    }
}

/// A step after reading its parameters `p0/p1` from inline code: the first part sets the
/// first parameter (empty removes it), the second part the second one; a third part is
/// an error, once it reads as a value.
pub open spec fn spec_step_params(step: InstrumentStep, code: Seq<char>) -> Result<InstrumentStep, SongParseErrorView> {
    let parts = split_slash(code);
    match spec_param_value(parts[0]) {
        Err(e) => Err(e),
        Ok(v0) => {
            let s0 = InstrumentStep { param0: v0, ..step };
            if parts.len() < 2 {
                Ok(s0)
            } else {
                match spec_param_value(parts[1]) {
                    Err(e) => Err(e),
                    Ok(v1) => {
                        let s1 = InstrumentStep { param1: v1, ..s0 };
                        if parts.len() < 3 {
                            Ok(s1)
                        } else {
                            match spec_param_value(parts[2]) {
                                Err(e) => Err(e),
                                Ok(_) => Err(SongParseErrorView::TooManyParams(code)),
                            }
                        }
                    },
                }
            }
        },
    }
}

/// The state after a step of pattern `p` is changed by `change` (of the instrument of the
/// current column, added without a slot if missing); the column and row must designate a
/// step.
pub open spec fn spec_edit_step(
    st: ParserView,
    p: usize,
    change: spec_fn(InstrumentStep) -> Result<InstrumentStep, SongParseErrorView>,
) -> Result<ParserView, SongParseErrorView> {
    match (st.table_column, st.table_row) {
        (Some(c), Some(r)) => if c >= st.ids.len() {
            Err(SongParseErrorView::MissingInstrumentId)
        } else if r >= NUM_STEPS || p >= NUM_PATTERNS {
            Err(SongParseErrorView::InvalidStepRow)
        } else {
            let id = st.ids[c as int];
            let s1 = with_instrument(st.out.patterns[p as int], id, None);
            let k = id_position(s1, id);
            match change(s1[k].steps[r as int]) {
                Ok(ns) => Ok(ParserView {
                    out: SongView {
                        patterns: st.out.patterns.update(
                            p as int,
                            s1.update(k, InstrumentView { steps: s1[k].steps.update(r as int, ns), ..s1[k] }),
                        ),
                        ..st.out
                    },
                    ..st
                }),
                Err(e) => Err(e),
            }
        },
        (None, _) => Err(SongParseErrorView::MissingInstrumentId),
        (Some(_), None) => Err(SongParseErrorView::InvalidStepRow),
    }
}

/// The state after a settings item: the instruments file takes its value, the frames per
/// step its integer value; other settings are ignored.
pub open spec fn spec_setting(st: ParserView, text: Seq<char>) -> Result<ParserView, SongParseErrorView> {
    let caps = spec_regex_captures(SETTING_RE@, text);
    match (captured_group(caps, 1), captured_group(caps, 2)) {
        (Some(name), Some(value)) => if name == INSTRUMENTS_FILE_SETTING@ {
            Ok(ParserView { out: SongView { instruments_file: value, ..st.out }, ..st })
        } else if name == FRAMES_PER_STEP_SETTING@ {
            match spec_parse_in_range(value, false, 0, u32::MAX as int) {
                Some(v) => Ok(ParserView { out: SongView { frames_per_step: v as u32, ..st.out }, ..st }),
                None => Err(SongParseErrorView::InvalidFramesPerStep(value)),
            }
        } else {
            Ok(st)
        },
        _ => Err(SongParseErrorView::InvalidSetting(text)),
    }
}

/// The state after a text event: a heading's text opens a section, a song list item
/// appends a song pattern, a pattern table's header cell names an instrument (taken
/// trimmed from the source), a pattern table's cell sets a step's note and release, and
/// a settings list item sets a setting.
pub open spec fn spec_text(source: Seq<char>, st: ParserView, text: Seq<char>, start: usize, end: usize) -> Result<ParserView, SongParseErrorView> {
    if st.tag_stack.len() > 0 && st.tag_stack.last() == MdTag::Heading {
        match spec_heading(text) {
            Ok(section) => Ok(ParserView { section, ..st }),
            Err(e) => Err(e),
        }
    } else if st.section == Section::Song && st.tag_stack.contains(MdTag::Item) {
        match spec_song_item(text) {
            Ok(p) => Ok(ParserView { out: SongView { song_patterns: st.out.song_patterns.push(p), ..st.out }, ..st }),
            Err(e) => Err(e),
        }
    } else if st.section is Pattern && st.tag_stack.contains(MdTag::TableHead) {
        match str_slice(source, start as int, end as int) {
            Some(t) => Ok(ParserView { ids: st.ids.push(trimmed(t)), ..st }),
            None => Err(SongParseErrorView::InvalidOffset),
        }
    } else if st.section is Pattern && st.tag_stack.contains(MdTag::TableRow) {
        spec_edit_step(st, st.section->0, |s: InstrumentStep| spec_step_text(s, text))
    } else if st.section == Section::Settings && st.tag_stack.contains(MdTag::Item) {
        spec_setting(st, text)
    } else {
        Ok(st)
    }
}

/// The state after one markdown event.
pub open spec fn spec_parse_event(source: Seq<char>, st: ParserView, e: MdEventView) -> Result<ParserView, SongParseErrorView> {
    match e {
        MdEventView::Start(tag) => spec_start(st, tag),
        MdEventView::End(tag, start) => spec_end(source, st, tag, start),
        MdEventView::Text(text, start, end) => spec_text(source, st, text, start, end),
        MdEventView::Code(code) => if st.tag_stack.contains(MdTag::TableRow) && st.section is Pattern {
            spec_edit_step(st, st.section->0, |s: InstrumentStep| spec_step_params(s, code))
        } else {
            Ok(st)
        },
        MdEventView::Other => Ok(st),
    }
}

/// The state after the first `n` events, or the first error.
pub open spec fn spec_parse_events(source: Seq<char>, events: Seq<MdEventView>, n: int) -> Result<ParserView, SongParseErrorView>
    decreases n,
{
    if n <= 0 {
        Ok(initial_parser())
    } else {
        match spec_parse_events(source, events, n - 1) {
            Ok(st) => spec_parse_event(source, st, events[n - 1]),
            Err(e) => Err(e),
        }
    }
}

/// The song that a markdown text's events give: the first error, or the song once all
/// events are read, which must name its instruments file.
pub open spec fn spec_song_from_events(source: Seq<char>, events: Seq<MdEventView>) -> Result<SongView, SongParseErrorView> {
    match spec_parse_events(source, events, events.len() as int) {
        Ok(st) => if st.out.instruments_file.len() == 0 {
            Err(SongParseErrorView::MissingInstrumentsFile)
        } else {
            Ok(st.out)
        },
        Err(e) => Err(e),
    }
}

/// The song reader's state.
struct SongParser {
    section: Section,
    table_column: Option<usize>,
    table_row: Option<usize>,
    table_instrument_ids: Vec<String>,
    found_known_section_heading: bool,
    tag_stack: Vec<MdTag>,
    out: SequencerSong,
}

/// The plain values of a sequence of strings.
pub open spec fn strings_view(v: Seq<String>) -> Seq<Seq<char>> {
    Seq::new(v.len(), |i: int| v[i]@)
}

impl View for SongParser {
    type V = ParserView;

    closed spec fn view(&self) -> ParserView {
        ParserView {
            section: self.section,
            table_column: self.table_column,
            table_row: self.table_row,
            ids: strings_view(self.table_instrument_ids@),
            found_known: self.found_known_section_heading,
            tag_stack: self.tag_stack@,
            out: self.out@,
        }
    }
}

/// One more than a counter, or 0 when it is not set.
pub open spec fn counter_bound(c: Option<usize>) -> int {
    match c {
        Some(v) => v + 1,
        None => 0,
    }
}

/// Whether `tag` is among the open elements.
fn stack_contains(stack: &Vec<MdTag>, tag: MdTag) -> (r: bool)
    ensures
        r == stack@.contains(tag),
{
    let mut i: usize = 0;
    while i < stack.len()
        invariant
            i <= stack@.len(),
            forall|j: int| 0 <= j < i ==> stack@[j] != tag,
        decreases stack@.len() - i,
    {
        if stack[i] == tag {
            assert(stack@[i as int] == tag);
            return true;
        }
        i = i + 1;
    }
    false
}

/// Whether two character sequences are equal.
fn same_chars(a: &Vec<char>, b: &Vec<char>) -> (r: bool)
    ensures
        r == (a@ == b@),
{
    if a.len() != b.len() {
        return false;
    }
    let mut i: usize = 0;
    while i < a.len()
        invariant
            i <= a@.len(),
            a@.len() == b@.len(),
            forall|j: int| 0 <= j < i ==> a@[j] == b@[j],
        decreases a@.len() - i,
    {
        if a[i] != b[i] {
            return false;
        }
        i = i + 1;
    }
    assert(a@ =~= b@);
    true
}

/// Whether a string equals a literal.
fn is_text(a: &String, lit: &str) -> (r: bool)
    ensures
        r == (a@ == lit@),
{
    let x = chars_of(a.as_str());
    let y = chars_of(lit);
    same_chars(&x, &y)
}

/// Group `i` of a match.
fn group(caps: &Option<Vec<Option<String>>>, i: usize) -> (r: Option<String>)
    ensures
        match r {
            Some(s) => captured_group(groups_view(*caps), i as int) == Some(s@),
            None => captured_group(groups_view(*caps), i as int) is None,
        },
{
    match caps {
        Some(g) => if i < g.len() {
            match &g[i] {
                Some(s) => Some(s.clone()),
                None => None,
            }
        } else {
            None
        },
        None => None,
    }
}

/// Reads a decimal `usize`.
fn read_usize(s: &String) -> (r: Option<usize>)
    ensures
        match r {
            Some(v) => parse_usize(s@) == Some(v as int),
            None => parse_usize(s@) is None,
        },
{
    let c = chars_of(s.as_str());
    match parse_int(&c, 0, usize::MAX as u64) {
        Some((_, v)) => Some(v as usize),
        None => None,
    }
}

/// The section that a heading's text opens (see `spec_heading`).
fn heading_section(text: &String) -> (r: Result<Section, SongParseError>)
    ensures
        match spec_heading(text@) {
            Ok(s) => r == Ok::<Section, SongParseError>(s),
            Err(e) => r matches Err(x) && x@ == e,
        },
{
    let caps = regex_captures(PATTERN_RE, text.as_str());
    match group(&caps, 1) {
        Some(g) => match read_usize(&g) {
            Some(num) => if num == 0 || num > NUM_PATTERNS {
                Err(SongParseError::PatternOutOfRange(text.clone()))
            } else {
                Ok(Section::Pattern(num - 1))
            },
            None => Err(SongParseError::InvalidNumber(g)),
        },
        None => if is_text(text, "Song") {
            Ok(Section::Song)
        } else if is_text(text, "Settings") {
            Ok(Section::Settings)
        } else {
            Ok(Section::Other)
        },
    }
}

/// The pattern number that a song list item names (see `spec_song_item`).
fn song_item(text: &String) -> (r: Result<usize, SongParseError>)
    ensures
        match spec_song_item(text@) {
            Ok(p) => r == Ok::<usize, SongParseError>(p),
            Err(e) => r matches Err(x) && x@ == e,
        },
{
    let caps = regex_captures(PATTERN_RE, text.as_str());
    match group(&caps, 1) {
        Some(g) => match read_usize(&g) {
            Some(num) => if num == 0 {
                Err(SongParseError::InvalidSongPattern(text.clone()))
            } else {
                Ok(num - 1)
            },
            None => Err(SongParseError::InvalidNumber(g)),
        },
        None => Err(SongParseError::InvalidSongPattern(text.clone())),
    }
}

/// A step after reading its cell's text (see `spec_step_text`).
fn apply_step_text(step: InstrumentStep, text: &String) -> (r: Result<InstrumentStep, SongParseError>)
    ensures
        match spec_step_text(step, text@) {
            Ok(s) => r == Ok::<InstrumentStep, SongParseError>(s),
            Err(e) => r matches Err(x) && x@ == e,
        },
{
    let chars = chars_of(text.as_str());
    let n = chars.len();
    let (t, period) = if n > 0 && chars[n - 1] == '.' {
        let mut prefix: Vec<char> = Vec::new();
        let mut i: usize = 0;
        while i < n - 1
            invariant
                n == chars@.len(),
                n > 0,
                i <= n - 1,
                prefix@ == chars@.subrange(0, i as int),
            decreases n - 1 - i,
        {
            prefix.push(chars[i]);
            i = i + 1;
        }
        assert(prefix@ =~= text@.drop_last());
        (trim_chars(&prefix), true)
    } else {
        (trim_chars(&chars), false)
    };
    let mut s = step;
    let dash = chars_of("-");
    if t.len() > 0 && !same_chars(&t, &dash) {
        let name = string_from_chars(&t);
        match MidiNote::from_name(name.as_str()) {
            Ok(MidiNote(note)) => {
                s.note = crate::midi_note::byte_of(note);
            },
            Err(e) => {
                return Err(SongParseError::InvalidNote(e));
            },
        }
    }
    if period {
        s.release = true;
    }
    Ok(s)
}

/// The parts of a string between its `/` characters.
fn split_on_slash(s: &Vec<char>) -> (r: Vec<Vec<char>>)
    ensures
        r@.len() == split_slash(s@).len(),
        forall|i: int| 0 <= i < r@.len() ==> #[trigger] r@[i]@ == split_slash(s@)[i],
{
    let mut parts: Vec<Vec<char>> = Vec::new();
    let mut cur: Vec<char> = Vec::new();
    let mut i: usize = 0;
    while i < s.len()
        invariant
            i <= s@.len(),
            split_slash(s@.take(i as int)).len() == parts@.len() + 1,
            forall|j: int| 0 <= j < parts@.len() ==> #[trigger] parts@[j]@ == split_slash(s@.take(i as int))[j],
            cur@ == split_slash(s@.take(i as int)).last(),
        decreases s@.len() - i,
    {
        assert(s@.take(i + 1).drop_last() =~= s@.take(i as int));
        if s[i] == '/' {
            parts.push(cur);
            cur = Vec::new();
        } else {
            cur.push(s[i]);
        }
        i = i + 1;
    }
    assert(s@.take(s@.len() as int) =~= s@);
    parts.push(cur);
    parts
}

/// A parameter value (see `spec_param_value`).
fn param_value(part: &Vec<char>) -> (r: Result<Option<i8>, SongParseError>)
    ensures
        match spec_param_value(part@) {
            Ok(v) => r == Ok::<Option<i8>, SongParseError>(v),
            Err(e) => r matches Err(x) && x@ == e,
        },
{
    if part.len() == 0 {
        return Ok(None);
    }
    match parse_int(part, 128, 127) {
        Some((neg, v)) => {
            let x: i8 = if neg {
                if v == 128 {
                    -128
                } else {
                    -(v as i8)
                }
            } else {
                v as i8
            };
            Ok(Some(x))
        },
        None => Err(SongParseError::InvalidNumber(string_from_chars(part))),
    }
}

/// A step after reading its parameters from inline code (see `spec_step_params`).
fn apply_step_params(step: InstrumentStep, code: &String) -> (r: Result<InstrumentStep, SongParseError>)
    ensures
        match spec_step_params(step, code@) {
            Ok(s) => r == Ok::<InstrumentStep, SongParseError>(s),
            Err(e) => r matches Err(x) && x@ == e,
        },
{
    let chars = chars_of(code.as_str());
    let parts = split_on_slash(&chars);
    proof {
        lemma_split_slash_nonempty(code@);
    }
    let mut s = step;
    s.param0 = param_value(&parts[0])?;
    if parts.len() < 2 {
        return Ok(s);
    }
    s.param1 = param_value(&parts[1])?;
    if parts.len() < 3 {
        return Ok(s);
    }
    param_value(&parts[2])?;
    Err(SongParseError::TooManyParams(code.clone()))
}

proof fn lemma_split_slash_nonempty(s: Seq<char>)
    ensures
        split_slash(s).len() >= 1,
    decreases s.len(),
{
    if s.len() > 0 {
        lemma_split_slash_nonempty(s.drop_last());
    }
}

/// The reader's state is sound: a song whose patterns are sound, with instruments that
/// have no slot yet.
pub open spec fn parser_wf(st: ParserView) -> bool {
    &&& song_structure_wf(st.out)
    &&& forall|p: int, k: int|
        0 <= p < st.out.patterns.len() && 0 <= k < st.out.patterns[p].len() ==> (#[trigger] st.out.patterns[p][k]).synth_index is None
}

/// A song read from a file has no instrument slots yet.
proof fn lemma_edit_step_wf(st: ParserView, p: int, id: Seq<char>, r: int, ns: InstrumentStep)
    requires
        parser_wf(st),
        0 <= p < NUM_PATTERNS,
        0 <= r < NUM_STEPS,
    ensures
        ({
            let s1 = with_instrument(st.out.patterns[p], id, None);
            let k = id_position(s1, id);
            let np = s1.update(k, InstrumentView { steps: s1[k].steps.update(r, ns), ..s1[k] });
            parser_wf(ParserView { out: SongView { patterns: st.out.patterns.update(p, np), ..st.out }, ..st })
                && 0 <= k < s1.len() && s1[k].steps.len() == NUM_STEPS
        }),
{
    let pat = st.out.patterns[p];
    crate::pattern::lemma_with_instrument_position(pat, id, None);
    let s1 = with_instrument(pat, id, None);
    let k = id_position(s1, id);
    assert forall|j: int| 0 <= j < s1.len() implies (#[trigger] s1[j]).steps.len() == NUM_STEPS && s1[j].synth_index is None by {
        if j < pat.len() {
            assert(pat[j].steps.len() == NUM_STEPS);
        }
    }
    let np = s1.update(k, InstrumentView { steps: s1[k].steps.update(r, ns), ..s1[k] });
    let w = ParserView { out: SongView { patterns: st.out.patterns.update(p, np), ..st.out }, ..st };
    assert forall|q: int, j: int|
        0 <= q < w.out.patterns.len() && 0 <= j < w.out.patterns[q].len() implies {
            &&& (#[trigger] w.out.patterns[q][j]).steps.len() == NUM_STEPS
            &&& w.out.patterns[q][j].synth_index matches Some(s) ==> s < crate::consts::NUM_INSTRUMENTS
        } by {
        if q != p {
            assert(w.out.patterns[q] == st.out.patterns[q]);
        }
    }
}

impl SongParser {
    fn new() -> (r: SongParser)
        ensures
            r@ == initial_parser(),
            parser_wf(r@),
    {
        let r = SongParser {
            section: Section::Other,
            table_column: None,
            table_row: None,
            table_instrument_ids: Vec::new(),
            found_known_section_heading: false,
            tag_stack: Vec::new(),
            out: SequencerSong::new(),
        };
        assert(r@.ids =~= Seq::<Seq<char>>::empty());
        r
    }

    /// Changes a step of pattern `p` by reading a cell's text (`code` false) or
    /// parameters (`code` true).
    fn edit_step(&mut self, p: usize, text: &String, code: bool) -> (r: Result<(), SongParseError>)
        requires
            parser_wf(old(self)@),
        ensures
            ({
                let res = if code {
                    spec_edit_step(old(self)@, p, |s: InstrumentStep| spec_step_params(s, text@))
                } else {
                    spec_edit_step(old(self)@, p, |s: InstrumentStep| spec_step_text(s, text@))
                };
                match res {
                    Ok(st) => r is Ok && final(self)@ == st,
                    Err(e) => r matches Err(x) && x@ == e,
                }
            }),
            r is Ok ==> parser_wf(final(self)@),
    {
        let c = match self.table_column {
            Some(c) => c,
            None => {
                return Err(SongParseError::MissingInstrumentId);
            },
        };
        let row = match self.table_row {
            Some(r) => r,
            None => {
                return Err(SongParseError::InvalidStepRow);
            },
        };
        if c >= self.table_instrument_ids.len() {
            return Err(SongParseError::MissingInstrumentId);
        }
        if row >= NUM_STEPS || p >= NUM_PATTERNS {
            return Err(SongParseError::InvalidStepRow);
        }
        let ghost st = self@;
        let ghost id = st.ids[c as int];
        assert(st.out.patterns[p as int] == self.out.patterns@[p as int]@);
        assert(id == self.table_instrument_ids@[c as int]@);
        proof {
            crate::pattern::lemma_with_instrument_position(st.out.patterns[p as int], id, None);
        }
        let steps = self.out.patterns[p].get_steps_mut_or_insert(&self.table_instrument_ids[c], None);
        let cur = steps[row];
        let res = if code {
            apply_step_params(cur, text)
        } else {
            apply_step_text(cur, text)
        };
        match res {
            Ok(ns) => {
                steps[row] = ns;
                proof {
                    lemma_edit_step_wf(st, p as int, id, row as int, ns);
                    assert(self.out.patterns@[p as int]@ == self@.out.patterns[p as int]);
                    let s1 = with_instrument(st.out.patterns[p as int], id, None);
                    let k = id_position(s1, id);
                    let np = s1.update(k, InstrumentView { steps: s1[k].steps.update(row as int, ns), ..s1[k] });
                    assert(self@.out.patterns =~= st.out.patterns.update(p as int, np));
                }
                Ok(())
            },
            Err(e) => Err(e),
        }
    }

    /// Reads a settings item (see `spec_setting`).
    fn setting(&mut self, text: &String) -> (r: Result<(), SongParseError>)
        requires
            parser_wf(old(self)@),
        ensures
            match spec_setting(old(self)@, text@) {
                Ok(st) => r is Ok && final(self)@ == st,
                Err(e) => r matches Err(x) && x@ == e,
            },
            r is Ok ==> parser_wf(final(self)@),
    {
        let caps = regex_captures(SETTING_RE, text.as_str());
        let name = group(&caps, 1);
        let value = group(&caps, 2);
        match (name, value) {
            (Some(name), Some(value)) => {
                if is_text(&name, INSTRUMENTS_FILE_SETTING) {
                    self.out.instruments_file = value;
                    Ok(())
                } else if is_text(&name, FRAMES_PER_STEP_SETTING) {
                    let chars = chars_of(value.as_str());
                    match parse_int(&chars, 0, 0xffff_ffff) {
                        Some((_, v)) => {
                            self.out.frames_per_step = v as u32;
                            Ok(())
                        },
                        None => Err(SongParseError::InvalidFramesPerStep(value)),
                    }
                } else {
                    Ok(())
                }
            },
            _ => Err(SongParseError::InvalidSetting(text.clone())),
        }
    }

    /// Reads a text event (see `spec_text`).
    fn text(&mut self, source: &str, text: &String, start: usize, end: usize) -> (r: Result<(), SongParseError>)
        requires
            parser_wf(old(self)@),
        ensures
            match spec_text(source@, old(self)@, text@, start, end) {
                Ok(st) => r is Ok && final(self)@ == st,
                Err(e) => r matches Err(x) && x@ == e,
            },
            r is Ok ==> parser_wf(final(self)@),
    {
        let n = self.tag_stack.len();
        if n > 0 && self.tag_stack[n - 1] == MdTag::Heading {
            let section = heading_section(text)?;
            self.section = section;
            return Ok(());
        }
        if self.section == Section::Song && stack_contains(&self.tag_stack, MdTag::Item) {
            let p = song_item(text)?;
            self.out.song_patterns.push(p);
            return Ok(());
        }
        let in_pattern = match self.section {
            Section::Pattern(_) => true,
            _ => false,
        };
        if in_pattern && stack_contains(&self.tag_stack, MdTag::TableHead) {
            match str_get(source, start, end) {
                Some(t) => {
                    let chars = chars_of(t.as_str());
                    let trimmed_id = trim_chars(&chars);
                    let id = string_from_chars(&trimmed_id);
                    let ghost before = self@.ids;
                    self.table_instrument_ids.push(id);
                    assert(self@.ids =~= before.push(trimmed(t@)));
                    return Ok(());
                },
                None => {
                    return Err(SongParseError::InvalidOffset);
                },
            }
        }
        if in_pattern && stack_contains(&self.tag_stack, MdTag::TableRow) {
            if let Section::Pattern(p) = self.section {
                return self.edit_step(p, text, false);
            }
        }
        if self.section == Section::Settings && stack_contains(&self.tag_stack, MdTag::Item) {
            return self.setting(text);
        }
        Ok(())
    }

    /// Reads the start of an element (see `spec_start`).
    fn start(&mut self, tag: MdTag) -> (r: Result<(), SongParseError>)
        requires
            parser_wf(old(self)@),
            counter_bound(old(self)@.table_row) < usize::MAX,
            counter_bound(old(self)@.table_column) < usize::MAX,
        ensures
            match spec_start(old(self)@, tag) {
                Ok(st) => r is Ok && final(self)@ == st,
                Err(e) => r matches Err(x) && x@ == e,
            },
            r is Ok ==> parser_wf(final(self)@),
            counter_bound(final(self)@.table_row) <= counter_bound(old(self)@.table_row) + 1,
            counter_bound(final(self)@.table_column) <= counter_bound(old(self)@.table_column) + 1,
    {
        let in_pattern = match self.section {
            Section::Pattern(_) => true,
            _ => false,
        };
        if tag == MdTag::TableRow {
            self.table_row = match self.table_row {
                Some(r) => {
                    if in_pattern && r >= 15 {
                        return Err(SongParseError::TooManyRows);
                    }
                    Some(r + 1)
                },
                None => Some(0),
            };
        } else if tag == MdTag::TableCell {
            self.table_column = match self.table_column {
                Some(c) => Some(c + 1),
                None => Some(0),
            };
        }
        self.tag_stack.push(tag);
        Ok(())
    }

    /// Reads the end of an element (see `spec_end`).
    fn end(&mut self, source: &str, tag: MdTag, start: usize) -> (r: Result<(), SongParseError>)
        requires
            parser_wf(old(self)@),
        ensures
            match spec_end(source@, old(self)@, tag, start) {
                Ok(st) => r is Ok && final(self)@ == st,
                Err(e) => r matches Err(x) && x@ == e,
            },
            r is Ok ==> parser_wf(final(self)@),
            counter_bound(final(self)@.table_row) <= counter_bound(old(self)@.table_row),
            counter_bound(final(self)@.table_column) <= counter_bound(old(self)@.table_column),
    {
        let in_pattern = match self.section {
            Section::Pattern(_) => true,
            _ => false,
        };
        let ghost st = self@;
        self.tag_stack.pop();
        if tag == MdTag::Heading {
            if !self.found_known_section_heading && self.section != Section::Other {
                match str_get(source, 0, start) {
                    Some(h) => {
                        self.found_known_section_heading = true;
                        self.out.markdown_header = h;
                    },
                    None => {
                        return Err(SongParseError::InvalidOffset);
                    },
                }
            }
        } else if tag == MdTag::Table {
            if in_pattern && self.table_row != Some(15) {
                return Err(SongParseError::WrongRowCount);
            }
            self.table_row = None;
            self.table_instrument_ids.clear();
            assert(self@.ids =~= Seq::<Seq<char>>::empty());
        } else if tag == MdTag::TableRow || tag == MdTag::TableHead {
            self.table_column = None;
        }
        assert(self@.tag_stack =~= if st.tag_stack.len() > 0 { st.tag_stack.drop_last() } else { st.tag_stack });
        Ok(())
    }
}

/// Once reading fails, later events do not change the error.
proof fn lemma_parse_error_persists(source: Seq<char>, events: Seq<MdEventView>, n: int, m: int)
    requires
        0 <= n <= m,
        spec_parse_events(source, events, n) is Err,
    ensures
        spec_parse_events(source, events, m) == spec_parse_events(source, events, n),
    decreases m - n,
{
    if m > n {
        lemma_parse_error_persists(source, events, n, m - 1);
    }
}

/// Reads a song from the events of its markdown text (see `spec_song_from_events`).
pub fn song_from_events(source: &str, events: &Vec<MdEvent>) -> (r: Result<SequencerSong, SongParseError>)
    ensures
        match spec_song_from_events(source@, event_views(events@)) {
            Ok(song) => r matches Ok(x) && x@ == song,
            Err(e) => r matches Err(x) && x@ == e,
        },
        r matches Ok(x) ==> song_structure_wf(x@),
{
    let ghost ev = event_views(events@);
    let mut parser = SongParser::new();
    let mut i: usize = 0;
    while i < events.len()
        invariant
            i <= events@.len(),
            ev == event_views(events@),
            spec_parse_events(source@, ev, i as int) == Ok::<ParserView, SongParseErrorView>(parser@),
            parser_wf(parser@),
            counter_bound(parser@.table_row) <= i,
            counter_bound(parser@.table_column) <= i,
        decreases events@.len() - i,
    {
        assert(ev[i as int] == events@[i as int]@);
        let step = match &events[i] {
            MdEvent::Start(tag) => parser.start(*tag),
            MdEvent::End(tag, start) => parser.end(source, *tag, *start),
            MdEvent::Text(text, start, end) => parser.text(source, text, *start, *end),
            MdEvent::Code(code) => {
                let in_row = stack_contains(&parser.tag_stack, MdTag::TableRow);
                match parser.section {
                    Section::Pattern(p) => if in_row {
                        parser.edit_step(p, code, true)
                    } else {
                        Ok(())
                    },
                    _ => Ok(()),
                }
            },
            MdEvent::Other => Ok(()),
        };
        match step {
            Ok(()) => {},
            Err(e) => {
                proof {
                    lemma_parse_error_persists(source@, ev, i + 1, ev.len() as int);
                }
                return Err(e);
            },
        }
        i = i + 1;
    }
    if parser.out.instruments_file.as_str().unicode_len() == 0 {
        Err(SongParseError::MissingInstrumentsFile)
    } else {
        Ok(parser.out)
    }
}

/// Reads a song from its markdown text: the events that `pulldown_cmark` gives for it are
/// read by `song_from_events`.
pub fn parse_markdown_song(markdown: &str) -> (r: Result<SequencerSong, SongParseError>)
    ensures
        match spec_song_from_events(markdown@, spec_markdown_events(markdown@)) {
            Ok(song) => r matches Ok(x) && x@ == song,
            Err(e) => r matches Err(x) && x@ == e,
        },
        r matches Ok(x) ==> song_structure_wf(x@),
{
    let events = markdown_events(markdown);
    song_from_events(markdown, &events)
}

} // verus!
