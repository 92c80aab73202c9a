use vstd::prelude::*;
use crate::consts::{NUM_INSTRUMENTS, NUM_PATTERNS, NUM_STEPS};
use crate::pattern::{Instrument, Pattern, InstrumentView, instrument_views, slot_of, has_slot, is_first_with_slot, is_nearest, spec_next_instrument, without_slot, empty_steps, id_position, with_instrument, applied_step, adds_something, all_empty, spec_set_step_events, step_before_set, slot_for_id, string_views, steps_in_slot, lemma_with_instrument_position};
use crate::step::{InstrumentStep, StepEvent};
use crate::markdown::{SongParseError, parse_markdown_song, spec_song_from_events, spec_markdown_events};
use crate::song_writer::{song_to_markdown, song_text, writable};
use vstd::arithmetic::div_mod::{lemma_add_mod_noop, lemma_mod_add_multiples_vanish, lemma_small_mod};

verus! {

/// The note that the sequencer starts with for new presses (C-5).
pub const DEFAULT_NOTE: u8 = 60;

/// The parameter value used for a press whose step sets no parameter.
pub const DEFAULT_PARAM_VAL: i8 = 0;

/// The notes below this one are not played by the hardware (C-2).
pub const LOWEST_NOTE: u8 = 24;

/// A song: the order in which patterns are played, the patterns, and settings.
pub struct SequencerSong {
    /// The pattern number played at each position of the song.
    pub song_patterns: Vec<usize>,
    pub patterns: Vec<Pattern>,
    pub frames_per_step: u32,
    /// The text of the song file before its first known section, kept for saving.
    pub markdown_header: String,
    /// The file name of the song's instruments.
    pub instruments_file: String,
}

/// What a song holds, as plain values.
pub struct SongView {
    pub song_patterns: Seq<usize>,
    pub patterns: Seq<Seq<InstrumentView>>,
    pub frames_per_step: u32,
    pub markdown_header: Seq<char>,
    pub instruments_file: Seq<char>,
}

/// The plain values of a sequence of patterns.
pub open spec fn pattern_views(v: Seq<Pattern>) -> Seq<Seq<InstrumentView>> {
    Seq::new(v.len(), |i: int| v[i]@)
}

impl View for SequencerSong {
    type V = SongView;

    open spec fn view(&self) -> SongView {
        SongView {
            song_patterns: self.song_patterns@,
            patterns: pattern_views(self.patterns@),
            frames_per_step: self.frames_per_step,
            markdown_header: self.markdown_header@,
            instruments_file: self.instruments_file@,
        }
    }
}

/// The song of a new project: no song pattern, empty patterns, seven frames per step.
pub open spec fn spec_default_song() -> SongView {
    SongView {
        song_patterns: Seq::empty(),
        patterns: Seq::new(NUM_PATTERNS as nat, |i: int| Seq::<InstrumentView>::empty()),
        frames_per_step: 7,
        markdown_header: Seq::empty(),
        instruments_file: Seq::empty(),
    }
}

impl SequencerSong {
    /// The song of a new project.
    pub fn new() -> (s: SequencerSong)
        ensures
            s@ == spec_default_song(),
    {
        let mut patterns: Vec<Pattern> = Vec::new();
        let mut i: usize = 0;
        while i < NUM_PATTERNS
            invariant
                i <= NUM_PATTERNS,
                patterns@.len() == i,
                forall|k: int| 0 <= k < i ==> (#[trigger] patterns@[k])@.len() == 0,
            decreases NUM_PATTERNS - i,
        {
            patterns.push(Pattern::new());
            i = i + 1;
        }
        let s = SequencerSong {
            song_patterns: Vec::new(),
            patterns,
            frames_per_step: 7,
            markdown_header: String::new(),
            instruments_file: String::new(),
        };
        assert forall|k: int| 0 <= k < NUM_PATTERNS implies #[trigger] s@.patterns[k] == Seq::<InstrumentView>::empty() by {
            assert(s@.patterns[k] =~= Seq::<InstrumentView>::empty());
        }
        assert(s@.patterns =~= spec_default_song().patterns);
        assert(s@.song_patterns =~= spec_default_song().song_patterns);
        s
    }
}

impl SequencerSong {
    /// Whether every song position names one of the 64 patterns.
    pub fn plays_existing_patterns(&self) -> (r: bool)
        ensures
            r == plays_existing_patterns(self@),
    {
        let mut i: usize = 0;
        while i < self.song_patterns.len()
            invariant
                i <= self.song_patterns@.len(),
                forall|j: int| 0 <= j < i ==> #[trigger] self.song_patterns@[j] < NUM_PATTERNS,
            decreases self.song_patterns@.len() - i,
        {
            if self.song_patterns[i] >= NUM_PATTERNS {
                assert(self@.song_patterns[i as int] == self.song_patterns@[i as int]);
                return false;
            }
            i = i + 1;
        }
        assert(self@.song_patterns == self.song_patterns@);
        true
    }

    /// Whether some song position plays pattern `p`.
    pub fn plays_pattern(&self, p: usize) -> (r: bool)
        ensures
            r == self@.song_patterns.contains(p),
    {
        let mut i: usize = 0;
        while i < self.song_patterns.len()
            invariant
                i <= self.song_patterns@.len(),
                forall|j: int| 0 <= j < i ==> self.song_patterns@[j] != p,
            decreases self.song_patterns@.len() - i,
        {
            if self.song_patterns[i] == p {
                assert(self.song_patterns@[i as int] == p);
                return true;
            }
            i = i + 1;
        }
        false
    }

    /// The number of the first pattern that no song position plays and that is still
    /// empty, or `None` when there is none left.
    pub fn first_unused_pattern(&self) -> (r: Option<usize>)
        requires
            song_wf(self@),
        ensures
            r == spec_first_unused_pattern(self@),
            r matches Some(p) ==> p < NUM_PATTERNS,
    {
        let ghost song = self@;
        let mut p: usize = 0;
        while p < self.patterns.len()
            invariant
                song == self@,
                song.patterns.len() == self.patterns@.len(),
                song.patterns.len() == NUM_PATTERNS,
                p <= song.patterns.len(),
                forall|q: int| 0 <= q < p ==> !unused_empty_pattern(song, q),
            decreases song.patterns.len() - p,
        {
            assert(song.patterns[p as int] == self.patterns@[p as int]@);
            if self.patterns[p].is_empty() && !self.plays_pattern(p) {
                proof {
                    assert(unused_empty_pattern(song, p as int));
                    let c = choose|c: int| unused_empty_pattern(song, c) && forall|q: int| 0 <= q < c ==> !unused_empty_pattern(song, q);
                    assert(unused_empty_pattern(song, c) && forall|q: int| 0 <= q < c ==> !unused_empty_pattern(song, q));
                    assert(c == p) by {
                        if c < p {
                            assert(!unused_empty_pattern(song, c));
                        } else if c > p {
                            assert(!unused_empty_pattern(song, p as int));
                        }
                    }
                }
                return Some(p);
            }
            p = p + 1;
        }
        proof {
            assert forall|q: int| !unused_empty_pattern(song, q) by {
                if 0 <= q < song.patterns.len() {
                } 
            }
        }
        None
    }
}

/// A copy of the elements of `v`.
fn copy_vec<T: Copy>(v: &Vec<T>) -> (r: Vec<T>)
    ensures
        r@ == v@,
{
    let mut r: Vec<T> = Vec::new();
    let mut i: usize = 0;
    while i < v.len()
        invariant
            i <= v@.len(),
            r@ == v@.take(i as int),
        decreases v@.len() - i,
    {
        r.push(v[i]);
        assert(r@ =~= v@.take(i + 1));
        i = i + 1;
    }
    assert(v@.take(v@.len() as int) =~= v@);
    r
}

/// A copy of the strings of `v`.
fn copy_strings(v: &Vec<String>) -> (r: Vec<String>)
    ensures
        string_views(r@) == string_views(v@),
{
    let mut r: Vec<String> = Vec::new();
    let mut i: usize = 0;
    while i < v.len()
        invariant
            i <= v@.len(),
            r@.len() == i,
            forall|j: int| 0 <= j < i ==> #[trigger] r@[j]@ == v@[j]@,
        decreases v@.len() - i,
    {
        let c = v[i].clone();
        r.push(c);
        i = i + 1;
    }
    assert(string_views(r@) =~= string_views(v@));
    r
}

impl SequencerSong {
    /// A copy of the song.
    pub fn duplicate(&self) -> (r: SequencerSong)
        ensures
            r@ == self@,
    {
        let mut patterns: Vec<Pattern> = Vec::new();
        let mut i: usize = 0;
        while i < self.patterns.len()
            invariant
                i <= self.patterns@.len(),
                patterns@.len() == i,
                forall|j: int| 0 <= j < i ==> (#[trigger] patterns@[j])@ == self.patterns@[j]@,
            decreases self.patterns@.len() - i,
        {
            let c = self.patterns[i].duplicate();
            patterns.push(c);
            i = i + 1;
        }
        let r = SequencerSong {
            song_patterns: copy_vec(&self.song_patterns),
            patterns,
            frames_per_step: self.frames_per_step,
            markdown_header: self.markdown_header.clone(),
            instruments_file: self.instruments_file.clone(),
        };
        assert(r@.patterns =~= self@.patterns);
        r
    }
}

impl Default for SequencerSong {
    fn default() -> (s: Self)
        ensures
            s@ == spec_default_song(),
    {
        SequencerSong::new()
    }
}

/// The note and release flag used when an empty step gets a press.
pub struct NoteClipboard {
    pub note: u8,
    pub release: bool,
}

/// The steps or parameter values copied from a range of steps.
pub enum SelectionClipboard {
    Empty,
    InstrumentParams(Vec<Option<i8>>),
    WholeSteps(Vec<InstrumentStep>),
}

/// The content of the selection clipboard, as plain values.
pub enum ClipboardView {
    Empty,
    InstrumentParams(Seq<Option<i8>>),
    WholeSteps(Seq<InstrumentStep>),
}

impl View for SelectionClipboard {
    type V = ClipboardView;

    open spec fn view(&self) -> ClipboardView {
        match self {
            SelectionClipboard::Empty => ClipboardView::Empty,
            SelectionClipboard::InstrumentParams(v) => ClipboardView::InstrumentParams(v@),
            SelectionClipboard::WholeSteps(v) => ClipboardView::WholeSteps(v@),
        }
    }
}

/// What happens when a cycle starts on a step that has no value.
#[derive(PartialEq, Eq, Structural)]
pub enum OnEmpty {
    /// Start from the clipboard value.
    PasteOnEmpty,
    /// Leave the step empty.
    EmptyOnEmpty,
}

/// The song settings that the user can change while editing.
pub struct SongSettings {
    pub frames_per_step: i32,
}

/// The step sequencer: the song, the playback position and the editing state.
pub struct Sequencer {
    song: SequencerSong,
    active_frame: Option<u32>,
    active_step: usize,
    active_song_pattern: usize,
    displayed_instrument: u8,
    displayed_song_pattern: usize,
    playing: bool,
    play_song_mode: bool,
    recording: bool,
    erasing: bool,
    has_stub_pattern: bool,
    next_cycle_song_pattern_start_can_have_new: bool,
    received_instruments_ids_after_load: bool,
    last_press_frame: Option<u32>,
    just_recorded_over_next_step: bool,
    muted_instruments: [bool; 256],
    synth_instrument_ids: Vec<String>,
    instrument_params: Vec<(i8, i8)>,
    default_note_clipboard: NoteClipboard,
    default_song_pattern_clipboard: usize,
    selection_clipboard: SelectionClipboard,
}

/// The state of the sequencer, as plain values.
pub struct SequencerView {
    pub song: SongView,
    /// The frame within the playback, once playback has started.
    pub active_frame: Option<u32>,
    pub active_step: usize,
    pub active_song_pattern: usize,
    pub displayed_instrument: u8,
    pub displayed_song_pattern: usize,
    pub playing: bool,
    pub play_song_mode: bool,
    pub recording: bool,
    pub erasing: bool,
    /// Whether the last song pattern was appended only because its slot was selected.
    pub has_stub_pattern: bool,
    pub next_cycle_song_pattern_start_can_have_new: bool,
    pub received_instruments_ids_after_load: bool,
    pub last_press_frame: Option<u32>,
    pub just_recorded_over_next_step: bool,
    pub muted_instruments: Set<u8>,
    pub synth_instrument_ids: Seq<Seq<char>>,
    pub instrument_params: Seq<(i8, i8)>,
    pub default_note: u8,
    pub default_release: bool,
    pub default_song_pattern_clipboard: usize,
    pub selection_clipboard: ClipboardView,
}

/// The slots whose flag is set.
pub open spec fn muted_set(flags: Seq<bool>) -> Set<u8> {
    Set::new(|i: u8| flags[i as int])
}

/// The plain values of a sequence of strings.
impl View for Sequencer {
    type V = SequencerView;

    closed spec fn view(&self) -> SequencerView {
        SequencerView {
            song: self.song@,
            active_frame: self.active_frame,
            active_step: self.active_step,
            active_song_pattern: self.active_song_pattern,
            displayed_instrument: self.displayed_instrument,
            displayed_song_pattern: self.displayed_song_pattern,
            playing: self.playing,
            play_song_mode: self.play_song_mode,
            recording: self.recording,
            erasing: self.erasing,
            has_stub_pattern: self.has_stub_pattern,
            next_cycle_song_pattern_start_can_have_new: self.next_cycle_song_pattern_start_can_have_new,
            received_instruments_ids_after_load: self.received_instruments_ids_after_load,
            last_press_frame: self.last_press_frame,
            just_recorded_over_next_step: self.just_recorded_over_next_step,
            muted_instruments: muted_set(self.muted_instruments@),
            synth_instrument_ids: string_views(self.synth_instrument_ids@),
            instrument_params: self.instrument_params@,
            default_note: self.default_note_clipboard.note,
            default_release: self.default_note_clipboard.release,
            default_song_pattern_clipboard: self.default_song_pattern_clipboard,
            selection_clipboard: self.selection_clipboard@,
        }
    }
}

/// A song's patterns are sound: 64 patterns of 16-step instruments in slots below 64.
pub open spec fn song_structure_wf(song: SongView) -> bool {
    &&& song.patterns.len() == NUM_PATTERNS
    &&& forall|p: int, k: int|
        0 <= p < song.patterns.len() && 0 <= k < song.patterns[p].len() ==> {
            &&& (#[trigger] song.patterns[p][k]).steps.len() == NUM_STEPS
            &&& song.patterns[p][k].synth_index matches Some(s) ==> s < NUM_INSTRUMENTS
        }
}

/// Every song position names one of the 64 patterns.
pub open spec fn plays_existing_patterns(song: SongView) -> bool {
    forall|i: int| 0 <= i < song.song_patterns.len() ==> #[trigger] song.song_patterns[i] < NUM_PATTERNS
}

/// A song's structure is sound: 64 patterns of 16-step instruments in slots below 64,
/// and song positions that name existing patterns.
pub open spec fn song_wf(song: SongView) -> bool {
    &&& song.patterns.len() == NUM_PATTERNS
    &&& forall|i: int| 0 <= i < song.song_patterns.len() ==> #[trigger] song.song_patterns[i] < NUM_PATTERNS
    &&& forall|p: int, k: int|
        0 <= p < song.patterns.len() && 0 <= k < song.patterns[p].len() ==> {
            &&& (#[trigger] song.patterns[p][k]).steps.len() == NUM_STEPS
            &&& song.patterns[p][k].synth_index matches Some(s) ==> s < NUM_INSTRUMENTS
        }
}

/// The instruments of a pattern are sound: 16 steps each and slots below 64.
pub open spec fn instruments_wf(instruments: Seq<InstrumentView>) -> bool {
    forall|k: int|
        0 <= k < instruments.len() ==> {
            &&& (#[trigger] instruments[k]).steps.len() == NUM_STEPS
            &&& instruments[k].synth_index matches Some(s) ==> s < NUM_INSTRUMENTS
        }
}

impl SequencerView {
    /// The state of a sequencer once a song is loaded.
    pub open spec fn wf(self) -> bool {
        &&& song_wf(self.song)
        &&& self.song.song_patterns.len() > 0
        &&& self.displayed_song_pattern < self.song.song_patterns.len()
        &&& self.active_song_pattern < self.song.song_patterns.len()
        &&& self.has_stub_pattern ==> self.displayed_song_pattern == self.song.song_patterns.len() - 1
        &&& self.active_step < NUM_STEPS
        &&& self.displayed_instrument < NUM_INSTRUMENTS
        &&& self.synth_instrument_ids.len() == NUM_INSTRUMENTS
        &&& self.instrument_params.len() == NUM_INSTRUMENTS
        &&& self.default_note != 0
        &&& self.default_song_pattern_clipboard < NUM_PATTERNS
    }

    /// The state of a sequencer before any song is loaded: all but the song's positions.
    pub open spec fn unloaded_wf(self) -> bool {
        &&& song_wf(self.song)
        &&& self.active_step < NUM_STEPS
        &&& self.displayed_instrument < NUM_INSTRUMENTS
        &&& self.synth_instrument_ids.len() == NUM_INSTRUMENTS
        &&& self.instrument_params.len() == NUM_INSTRUMENTS
        &&& self.default_note != 0
        &&& self.default_song_pattern_clipboard < NUM_PATTERNS
    }

    pub open spec fn pattern_idx(self, song_pattern: int) -> int {
        self.song.song_patterns[song_pattern] as int
    }

    pub open spec fn displayed_pattern_idx(self) -> int {
        self.pattern_idx(self.displayed_song_pattern as int)
    }

    pub open spec fn active_pattern_idx(self) -> int {
        self.pattern_idx(self.active_song_pattern as int)
    }

    pub open spec fn displayed_pattern(self) -> Seq<InstrumentView> {
        self.song.patterns[self.displayed_pattern_idx()]
    }

    pub open spec fn active_pattern(self) -> Seq<InstrumentView> {
        self.song.patterns[self.active_pattern_idx()]
    }

    pub open spec fn displayed_instrument_id(self) -> Seq<char> {
        self.synth_instrument_ids[self.displayed_instrument as int]
    }

    /// The number of song patterns that playback goes through: the stub counts only when
    /// it is the only one.
    pub open spec fn spec_num_song_patterns(self) -> int {
        let len = self.song.song_patterns.len() as int;
        if self.has_stub_pattern && len > 1 {
            len - 1
        } else {
            len
        }
    }

    pub open spec fn spec_snap_at_step_frame(self) -> int {
        self.song.frames_per_step as int / 2 + 1
    }
}

/// The state of a new sequencer, before a song is loaded.
pub open spec fn spec_new_sequencer() -> SequencerView {
    SequencerView {
        song: spec_default_song(),
        active_frame: None,
        active_step: 0,
        active_song_pattern: 0,
        displayed_instrument: 0,
        displayed_song_pattern: 0,
        playing: false,
        play_song_mode: false,
        recording: true,
        erasing: false,
        has_stub_pattern: false,
        next_cycle_song_pattern_start_can_have_new: false,
        received_instruments_ids_after_load: false,
        last_press_frame: None,
        just_recorded_over_next_step: false,
        muted_instruments: Set::empty(),
        synth_instrument_ids: Seq::new(NUM_INSTRUMENTS as nat, |i: int| Seq::<char>::empty()),
        instrument_params: Seq::new(NUM_INSTRUMENTS as nat, |i: int| (0i8, 0i8)),
        default_note: DEFAULT_NOTE,
        default_release: true,
        default_song_pattern_clipboard: 0,
        selection_clipboard: ClipboardView::Empty,
    }
}

/// The position one step forward or backward, moving to the next or previous song pattern
/// (cycling through `num_song_patterns`) when the step wraps around.
pub open spec fn spec_next_step_and_song_pattern(forward: bool, from_step: int, from_song_pattern: int, num_song_patterns: int) -> (int, int) {
    let delta: int = if forward { 1 } else { -1 };
    let next_step = (from_step + NUM_STEPS + delta) % (NUM_STEPS as int);
    let wraps = forward && next_step == 0 || !forward && from_step == 0;
    if wraps {
        (next_step, (from_song_pattern + num_song_patterns + delta) % num_song_patterns)
    } else {
        (next_step, from_song_pattern)
    }
}

/// Moving one position forward or backward through `n` positions, cycling.
proof fn lemma_cycle_position(a: int, n: int)
    requires
        0 <= a,
        0 < n,
    ensures
        (a + n + 1) % n == ((a % n) + 1) % n,
        (a + n - 1) % n == if a % n == 0 { n - 1 } else { a % n - 1 },
{
    let m = a % n;
    lemma_mod_add_multiples_vanish(a + 1, n);
    lemma_add_mod_noop(a, 1, n);
    lemma_small_mod(m as nat, n as nat);
    lemma_add_mod_noop(m, 1, n);
    lemma_add_mod_noop(a, n - 1, n);
    lemma_small_mod((n - 1) as nat, n as nat);
    if m != 0 {
        lemma_mod_add_multiples_vanish(m - 1, n);
        lemma_small_mod((m - 1) as nat, n as nat);
    }
}

/// Pattern `p` exists, no song position plays it, and it is empty.
pub open spec fn unused_empty_pattern(song: SongView, p: int) -> bool {
    &&& 0 <= p < song.patterns.len()
    &&& !song.song_patterns.contains(p as usize)
    &&& song.patterns[p].len() == 0
}

/// The first pattern number that no song position plays and that is still empty, if any.
pub open spec fn spec_first_unused_pattern(song: SongView) -> Option<usize> {
    if exists|p: int| unused_empty_pattern(song, p) {
        Some(
            (choose|p: int| unused_empty_pattern(song, p) && forall|q: int| 0 <= q < p ==> !unused_empty_pattern(song, q)) as usize,
        )
    } else {
        None
    }
}

/// The pattern number given to a stub song pattern: the first unused pattern, else the
/// pattern clipboard.
pub open spec fn stub_pattern_value(v: SequencerView) -> usize {
    match spec_first_unused_pattern(v.song) {
        Some(p) => p,
        None => v.default_song_pattern_clipboard,
    }
}

/// A state from which a song pattern can be displayed: like `wf`, except that there may be
/// no song pattern yet, and that the active and displayed positions may stand at the end
/// when there is no stub.
pub open spec fn displayable(v: SequencerView, song_pattern: int) -> bool {
    let len = v.song.song_patterns.len();
    &&& v.unloaded_wf()
    &&& forall|i: int| 0 <= i < len ==> #[trigger] v.song.song_patterns[i] < NUM_PATTERNS
    &&& v.has_stub_pattern ==> {
        &&& v.displayed_song_pattern == len - 1
        &&& v.active_song_pattern < len
        &&& song_pattern < len
    }
    &&& !v.has_stub_pattern ==> {
        &&& song_pattern <= len
        &&& v.active_song_pattern <= len
        &&& song_pattern < len ==> v.active_song_pattern < len
    }
}

/// The state after displaying a song pattern. Selecting the slot past the last song
/// pattern appends a stub song pattern there; moving away from a stub removes it (and
/// moves playback back to the last song pattern if it was playing the stub).
pub open spec fn spec_display_song_pattern(v: SequencerView, song_pattern: usize) -> SequencerView {
    let len = v.song.song_patterns.len();
    let v1 = if !v.has_stub_pattern && song_pattern == len {
        SequencerView {
            song: SongView { song_patterns: v.song.song_patterns.push(stub_pattern_value(v)), ..v.song },
            has_stub_pattern: true,
            ..v
        }
    } else if v.has_stub_pattern && song_pattern != v.displayed_song_pattern {
        let sps = v.song.song_patterns.drop_last();
        SequencerView {
            song: SongView { song_patterns: sps, ..v.song },
            has_stub_pattern: false,
            active_song_pattern: if v.active_song_pattern == v.displayed_song_pattern {
                (sps.len() - 1) as usize
            } else {
                v.active_song_pattern
            },
            ..v
        }
    } else {
        v
    };
    SequencerView { displayed_song_pattern: song_pattern, ..v1 }
}

/// The state after the stub song pattern became a real one.
pub open spec fn spec_commit_stub(v: SequencerView) -> SequencerView {
    SequencerView { has_stub_pattern: false, next_cycle_song_pattern_start_can_have_new: true, ..v }
}

/// The state after starting to edit the displayed song pattern: a stub takes the pattern
/// clipboard and becomes real, then the clipboard takes the displayed pattern number.
pub open spec fn spec_cycle_song_pattern_start(v: SequencerView) -> SequencerView {
    let v1 = SequencerView { next_cycle_song_pattern_start_can_have_new: false, ..v };
    let v2 = if v1.has_stub_pattern {
        spec_commit_stub(spec_write_displayed_song_pattern(v1, v1.default_song_pattern_clipboard))
    } else {
        v1
    };
    SequencerView { default_song_pattern_clipboard: v2.displayed_pattern_idx() as usize, ..v2 }
}

/// The state after muting the instrument in slot `instrument`, or unmuting it if it was muted.
pub open spec fn spec_toggle_mute(v: SequencerView, instrument: u8) -> SequencerView {
    SequencerView {
        muted_instruments: if v.muted_instruments.contains(instrument) {
            v.muted_instruments.remove(instrument)
        } else {
            v.muted_instruments.insert(instrument)
        },
        ..v
    }
}

/// The pattern number after moving it by one, staying within the patterns.
pub open spec fn cycled_pattern(p: int, forward: bool) -> int {
    if forward && p < NUM_PATTERNS - 1 {
        p + 1
    } else if !forward && p > 0 {
        p - 1
    } else {
        p
    }
}

/// The state after moving the pattern number of the displayed song position by one; the
/// pattern clipboard takes the new number.
pub open spec fn spec_cycle_song_pattern(v: SequencerView, forward: bool) -> SequencerView {
    let np = cycled_pattern(v.displayed_pattern_idx(), forward);
    spec_write_displayed_song_pattern(
        SequencerView { default_song_pattern_clipboard: np as usize, ..v },
        np as usize,
    )
}

/// Muting an instrument twice leaves the mutes as they were.
pub proof fn lemma_toggle_mute_twice(v: SequencerView, instrument: u8)
    ensures
        spec_toggle_mute(spec_toggle_mute(v, instrument), instrument) == v,
{
    let once = spec_toggle_mute(v, instrument);
    assert(spec_toggle_mute(once, instrument).muted_instruments =~= v.muted_instruments);
}

/// Moving playback one step forward then one step back returns to the same position,
/// for a position within the song.
pub proof fn lemma_step_forward_backward(from_step: int, from_song_pattern: int, num_song_patterns: int)
    requires
        0 <= from_step < NUM_STEPS,
        0 <= from_song_pattern < num_song_patterns,
    ensures
        ({
            let f = spec_next_step_and_song_pattern(true, from_step, from_song_pattern, num_song_patterns);
            spec_next_step_and_song_pattern(false, f.0, f.1, num_song_patterns) == (from_step, from_song_pattern)
        }),
{
    let n = num_song_patterns;
    let a = from_song_pattern;
    lemma_small_mod((from_step + 1) as nat, 17);
    lemma_mod_add_multiples_vanish(from_step + 1, NUM_STEPS as int);
    if from_step < 15 {
        lemma_small_mod((from_step + 1) as nat, NUM_STEPS as nat);
        lemma_mod_add_multiples_vanish(from_step, NUM_STEPS as int);
        lemma_small_mod(from_step as nat, NUM_STEPS as nat);
    } else {
        lemma_cycle_position(a, n);
        lemma_small_mod(a as nat, n as nat);
        let b = (a + n + 1) % n;
        lemma_cycle_position(b, n);
        if a + 1 < n {
            lemma_small_mod((a + 1) as nat, n as nat);
            lemma_small_mod((a + 1) as nat, n as nat);
        } else {
            assert(((a % n) + 1) % n == 0) by {
                vstd::arithmetic::div_mod::lemma_mod_self_0(n);
            }
        }
        lemma_small_mod(b as nat, n as nat);
    }
}

/// Moving the displayed pattern number forward then back (or back then forward) restores
/// it, away from the first and last patterns.
pub proof fn lemma_cycle_song_pattern_back(v: SequencerView, forward: bool)
    requires
        v.wf(),
        0 < v.displayed_pattern_idx() < NUM_PATTERNS - 1,
    ensures
        spec_cycle_song_pattern(spec_cycle_song_pattern(v, forward), !forward).displayed_pattern_idx()
            == v.displayed_pattern_idx(),
{
}

/// Selecting the slot past the last song pattern appends a stub song pattern, and
/// selecting an existing song pattern again takes it away: the song is as it was.
pub proof fn lemma_stub_display_undone(v: SequencerView, song_pattern: usize)
    requires
        v.wf(),
        !v.has_stub_pattern,
        song_pattern < v.song.song_patterns.len() <= usize::MAX,
    ensures
        ({
            let w = spec_display_song_pattern(
                spec_display_song_pattern(v, v.song.song_patterns.len() as usize),
                song_pattern,
            );
            &&& w.song == v.song
            &&& !w.has_stub_pattern
            &&& w.displayed_song_pattern == song_pattern
        }),
{
    let len = v.song.song_patterns.len();
    let v1 = spec_display_song_pattern(v, len as usize);
    assert(v1.song.song_patterns.drop_last() =~= v.song.song_patterns);
    let w = spec_display_song_pattern(v1, song_pattern);
    assert(w.song.song_patterns =~= v.song.song_patterns);
}

/// The state after writing a pattern number at the displayed song position.
pub open spec fn spec_write_displayed_song_pattern(v: SequencerView, new_pattern: usize) -> SequencerView {
    SequencerView {
        song: SongView {
            song_patterns: v.song.song_patterns.update(v.displayed_song_pattern as int, new_pattern),
            ..v.song
        },
        ..v
    }
}

impl Sequencer {
    /// A sequencer with the song of a new project, which `load_default` makes ready.
    pub fn new() -> (s: Sequencer)
        ensures
            s@ == spec_new_sequencer(),
            s@.unloaded_wf(),
    {
        let mut ids: Vec<String> = Vec::new();
        let mut params: Vec<(i8, i8)> = Vec::new();
        let mut i: usize = 0;
        while i < NUM_INSTRUMENTS
            invariant
                i <= NUM_INSTRUMENTS,
                ids@.len() == i,
                params@.len() == i,
                forall|k: int| 0 <= k < i ==> (#[trigger] ids@[k])@ == Seq::<char>::empty(),
                forall|k: int| 0 <= k < i ==> #[trigger] params@[k] == (0i8, 0i8),
            decreases NUM_INSTRUMENTS - i,
        {
            ids.push(String::new());
            params.push((0, 0));
            i = i + 1;
        }
        let s = Sequencer {
            song: SequencerSong::new(),
            active_frame: None,
            active_step: 0,
            active_song_pattern: 0,
            displayed_instrument: 0,
            displayed_song_pattern: 0,
            playing: false,
            play_song_mode: false,
            recording: true,
            erasing: false,
            has_stub_pattern: false,
            next_cycle_song_pattern_start_can_have_new: false,
            received_instruments_ids_after_load: false,
            last_press_frame: None,
            just_recorded_over_next_step: false,
            muted_instruments: [false; 256],
            synth_instrument_ids: ids,
            instrument_params: params,
            default_note_clipboard: NoteClipboard { note: DEFAULT_NOTE, release: true },
            default_song_pattern_clipboard: 0,
            selection_clipboard: SelectionClipboard::Empty,
        };
        assert(s@.muted_instruments =~= Set::empty());
        assert(s@.synth_instrument_ids =~= spec_new_sequencer().synth_instrument_ids);
        assert(s@.instrument_params =~= spec_new_sequencer().instrument_params);
        assert(s@.song.patterns.len() == NUM_PATTERNS);
        s
    }
}

impl Sequencer {
    fn active_frame_or_zero(&self) -> (r: u32)
        ensures
            r == match self@.active_frame {
                Some(f) => f,
                None => 0,
            },
    {
        match self.active_frame {
            Some(f) => f,
            None => 0,
        }
    }

    /// The pattern number at a position of the song.
    fn pattern_idx(&self, song_pattern: usize) -> (r: usize)
        requires
            song_pattern < self@.song.song_patterns.len(),
        ensures
            r == self@.pattern_idx(song_pattern as int),
    {
        self.song.song_patterns[song_pattern]
    }

    /// The pattern number of the active song pattern.
    fn active_pattern_idx(&self) -> (r: usize)
        requires
            self@.wf(),
        ensures
            r == self@.active_pattern_idx(),
            r < NUM_PATTERNS,
    {
        self.pattern_idx(self.active_song_pattern)
    }

    /// The pattern number of the displayed song pattern.
    fn displayed_pattern_idx(&self) -> (r: usize)
        requires
            self@.wf(),
        ensures
            r == self@.displayed_pattern_idx(),
            r < NUM_PATTERNS,
    {
        self.pattern_idx(self.displayed_song_pattern)
    }

    /// Moves playback to a song pattern.
    pub fn activate_song_pattern(&mut self, song_pattern: usize)
        requires
            old(self)@.wf(),
            song_pattern < old(self)@.song.song_patterns.len(),
        ensures
            final(self)@ == (SequencerView { active_song_pattern: song_pattern, ..old(self)@ }),
            final(self)@.wf(),
    {
        self.active_song_pattern = song_pattern;
    }

    /// Moves playback to a step.
    pub fn activate_step(&mut self, step: usize)
        requires
            old(self)@.wf(),
            step < NUM_STEPS,
        ensures
            final(self)@ == (SequencerView { active_step: step, ..old(self)@ }),
            final(self)@.wf(),
    {
        self.active_step = step;
    }

    /// Applies the song settings that the user changed.
    pub fn apply_song_settings(&mut self, settings: &SongSettings)
        ensures
            final(self)@ == (SequencerView {
                song: SongView { frames_per_step: settings.frames_per_step as u32, ..old(self)@.song },
                ..old(self)@
            }),
    {
        self.song.frames_per_step = settings.frames_per_step as u32;
    }

    /// Selects the instrument whose steps are displayed and edited.
    pub fn display_instrument(&mut self, instrument: u8)
        requires
            old(self)@.wf(),
            instrument < NUM_INSTRUMENTS,
        ensures
            final(self)@ == (SequencerView { displayed_instrument: instrument, ..old(self)@ }),
            final(self)@.wf(),
    {
        self.displayed_instrument = instrument;
    }

    /// Moves the instrument selection in the grid of four columns: columns wrap around,
    /// rows stay within the sixteen rows.
    pub fn cycle_instrument(&mut self, col_delta: i32, row_delta: i32)
        requires
            old(self)@.wf(),
            old(self)@.displayed_instrument + 4 + col_delta >= 0,
            col_delta <= i32::MAX - 68,
            row_delta <= i32::MAX - 15,
        ensures
            ({
                let di = old(self)@.displayed_instrument as int;
                let col = (di + 4 + col_delta) % 4;
                let r = di / 4 + row_delta;
                let row = if r < 0 { 0 } else if r > 15 { 15 } else { r };
                final(self)@ == (SequencerView { displayed_instrument: (col + row * 4) as u8, ..old(self)@ })
            }),
            final(self)@.wf(),
    {
        let di = self.displayed_instrument as i32;
        let col = (di + 4 + col_delta) % 4;
        let r = di / 4 + row_delta;
        let row = if r < 0 { 0 } else if r > 15 { 15 } else { r };
        self.display_instrument((col + row * 4) as u8)
    }

    /// Mutes the instrument in slot `instrument`, or unmutes it if it was muted.
    pub fn toggle_mute_instrument(&mut self, instrument: u8)
        ensures
            final(self)@ == spec_toggle_mute(old(self)@, instrument),
    {
        let was_muted = self.muted_instruments[instrument as usize];
        self.muted_instruments[instrument as usize] = !was_muted;
        let ghost old_set = old(self)@.muted_instruments;
        assert(self@.muted_instruments =~= if old_set.contains(instrument) {
            old_set.remove(instrument)
        } else {
            old_set.insert(instrument)
        });
    }

    /// Whether the song is playing.
    pub fn playing(&self) -> (r: bool)
        ensures
            r == self@.playing,
    {
        self.playing
    }

    /// Starts or stops playback, of the whole song or of the displayed pattern. The frame
    /// count restarts so that playback starts on a full step.
    pub fn set_playing(&mut self, val: bool, song_mode: bool)
        ensures
            final(self)@ == (SequencerView {
                playing: val,
                play_song_mode: song_mode,
                active_frame: None,
                ..old(self)@
            }),
    {
        self.playing = val;
        self.play_song_mode = song_mode;
        self.active_frame = None;
    }

    /// Turns recording of played notes on or off.
    pub fn set_recording(&mut self, val: bool)
        ensures
            final(self)@ == (SequencerView { recording: val, ..old(self)@ }),
    {
        self.recording = val;
    }

    /// The note that presses on empty steps use.
    pub fn clipboard_note(&self) -> (r: u8)
        ensures
            r == self@.default_note,
    {
        self.default_note_clipboard.note
    }

    /// The parameter values of the displayed instrument.
    pub fn displayed_instrument_params(&self) -> (r: (i8, i8))
        requires
            self@.wf(),
        ensures
            r == self@.instrument_params[self@.displayed_instrument as int],
    {
        self.instrument_params[self.displayed_instrument as usize]
    }

    /// The frame within a step from which a key press is recorded on the next step.
    fn snap_at_step_frame(&self) -> (r: u32)
        ensures
            r == self@.spec_snap_at_step_frame(),
    {
        self.song.frames_per_step / 2 + 1
    }

    /// The number of song patterns that playback goes through.
    fn num_song_patterns(&self) -> (r: usize)
        ensures
            r == self@.spec_num_song_patterns(),
    {
        let len = self.song.song_patterns.len();
        if self.has_stub_pattern && len > 1 {
            len - 1
        } else {
            len
        }
    }

    /// The step and song pattern one step forward or backward from a position.
    #[verifier::spinoff_prover]
    pub fn next_step_and_pattern_and_song_pattern(
        forward: bool,
        from_step: usize,
        from_song_pattern: usize,
        num_song_patterns: usize,
    ) -> (r: (usize, usize))
        requires
            from_step < NUM_STEPS,
            num_song_patterns > 0,
        ensures
            r.0 == spec_next_step_and_song_pattern(
                forward,
                from_step as int,
                from_song_pattern as int,
                num_song_patterns as int,
            ).0,
            r.1 == spec_next_step_and_song_pattern(
                forward,
                from_step as int,
                from_song_pattern as int,
                num_song_patterns as int,
            ).1,
            r.0 < NUM_STEPS,
            from_song_pattern < num_song_patterns ==> r.1 < num_song_patterns,
    {
        let next_step: usize = if forward {
            (from_step + 1) % NUM_STEPS
        } else {
            (from_step + NUM_STEPS - 1) % NUM_STEPS
        };
        assert(next_step == spec_next_step_and_song_pattern(
            forward,
            from_step as int,
            from_song_pattern as int,
            num_song_patterns as int,
        ).0);
        let wraps = forward && next_step == 0 || !forward && from_step == 0;
        if wraps {
            let m = from_song_pattern % num_song_patterns;
            let next_song_pattern = if forward {
                (m + 1) % num_song_patterns
            } else if m == 0 {
                num_song_patterns - 1
            } else {
                m - 1
            };
            proof {
                lemma_cycle_position(from_song_pattern as int, num_song_patterns as int);
            }
            return (next_step, next_song_pattern);
        }
        (next_step, from_song_pattern)
    }

    /// The number of the first pattern that no song position plays and that is still
    /// empty, or `None` when there is none left.
    pub fn find_first_unused_pattern_idx(&self) -> (r: Option<usize>)
        requires
            song_wf(self@.song),
        ensures
            r == spec_first_unused_pattern(self@.song),
            r matches Some(p) ==> p < NUM_PATTERNS,
    {
        self.song.first_unused_pattern()
    }
}

impl Sequencer {
    /// Appends a stub song pattern, numbered after the first unused pattern (or the
    /// pattern clipboard), so that the slot past the last song pattern can be edited.
    fn append_stub_song_pattern(&mut self)
        requires
            song_wf(old(self)@.song),
            old(self)@.default_song_pattern_clipboard < NUM_PATTERNS,
        ensures
            final(self)@ == (SequencerView {
                song: SongView {
                    song_patterns: old(self)@.song.song_patterns.push(stub_pattern_value(old(self)@)),
                    ..old(self)@.song
                },
                has_stub_pattern: true,
                ..old(self)@
            }),
    {
        let v = match self.find_first_unused_pattern_idx() {
            Some(p) => p,
            None => self.default_song_pattern_clipboard,
        };
        self.song.song_patterns.push(v);
        self.has_stub_pattern = true;
    }

    /// Removes the stub song pattern; playback that was on it moves to the last song pattern.
    fn remove_stub_song_pattern(&mut self)
        requires
            old(self)@.song.song_patterns.len() >= 2,
        ensures
            ({
                let v = old(self)@;
                let sps = v.song.song_patterns.drop_last();
                final(self)@ == SequencerView {
                    song: SongView { song_patterns: sps, ..v.song },
                    has_stub_pattern: false,
                    active_song_pattern: if v.active_song_pattern == v.displayed_song_pattern {
                        (sps.len() - 1) as usize
                    } else {
                        v.active_song_pattern
                    },
                    ..v
                }
            }),
    {
        self.song.song_patterns.pop();
        self.has_stub_pattern = false;
        if self.active_song_pattern == self.displayed_song_pattern {
            self.active_song_pattern = self.song.song_patterns.len() - 1;
        }
    }

    /// Turns the stub song pattern into a real one.
    fn commit_stub_song_pattern(&mut self)
        requires
            old(self)@.has_stub_pattern,
        ensures
            final(self)@ == spec_commit_stub(old(self)@),
    {
        self.has_stub_pattern = false;
        self.next_cycle_song_pattern_start_can_have_new = true;
    }

    /// Displays a song pattern (see `spec_display_song_pattern`).
    pub fn display_song_pattern(&mut self, song_pattern: usize)
        requires
            displayable(old(self)@, song_pattern as int),
        ensures
            final(self)@ == spec_display_song_pattern(old(self)@, song_pattern),
            final(self)@.wf(),
    {
        if !self.has_stub_pattern && song_pattern == self.song.song_patterns.len() {
            self.append_stub_song_pattern();
        } else if self.has_stub_pattern && song_pattern != self.displayed_song_pattern {
            self.remove_stub_song_pattern();
        }
        self.displayed_song_pattern = song_pattern;
    }

    /// Writes a pattern number at the displayed song position.
    fn write_displayed_song_pattern(&mut self, new_pattern: usize)
        requires
            old(self)@.wf(),
            new_pattern < NUM_PATTERNS,
        ensures
            final(self)@ == spec_write_displayed_song_pattern(old(self)@, new_pattern),
            final(self)@.wf(),
    {
        let song_pattern_idx = self.displayed_song_pattern;
        self.song.song_patterns.set(song_pattern_idx, new_pattern);
    }

    /// Changes the pattern number of the displayed song pattern by one, within the
    /// patterns, and copies it to the pattern clipboard.
    #[verifier::spinoff_prover]
    #[verifier::rlimit(40)]
    pub fn cycle_song_pattern(&mut self, forward: bool)
        requires
            old(self)@.wf(),
        ensures
            final(self)@ == spec_cycle_song_pattern(old(self)@, forward),
            final(self)@.wf(),
    {
        let mut pattern = self.displayed_pattern_idx();
        if forward && pattern < NUM_PATTERNS - 1 {
            pattern = pattern + 1;
        } else if !forward && pattern > 0 {
            pattern = pattern - 1;
        }
        assert(pattern == cycled_pattern(old(self)@.displayed_pattern_idx(), forward));
        self.default_song_pattern_clipboard = pattern;
        self.write_displayed_song_pattern(pattern);
    }

    /// Starts editing the displayed song pattern: a stub song pattern takes the pattern
    /// clipboard and becomes real; the clipboard then takes the displayed pattern number.
    pub fn cycle_song_pattern_start(&mut self)
        requires
            old(self)@.wf(),
        ensures
            final(self)@ == spec_cycle_song_pattern_start(old(self)@),
            final(self)@.wf(),
    {
        self.next_cycle_song_pattern_start_can_have_new = false;
        if self.has_stub_pattern {
            let c = self.default_song_pattern_clipboard;
            self.write_displayed_song_pattern(c);
            self.commit_stub_song_pattern();
        }
        self.default_song_pattern_clipboard = self.displayed_pattern_idx();
    }

    /// Like `cycle_song_pattern_start`, but right after a stub was committed, first gives
    /// the displayed song position the first unused pattern, if any.
    pub fn cycle_song_pattern_start_with_new(&mut self)
        requires
            old(self)@.wf(),
        ensures
            final(self)@ == spec_cycle_song_pattern_start(
                if old(self)@.next_cycle_song_pattern_start_can_have_new && spec_first_unused_pattern(old(self)@.song) is Some {
                    spec_write_displayed_song_pattern(old(self)@, spec_first_unused_pattern(old(self)@.song)->0)
                } else {
                    old(self)@
                },
            ),
            final(self)@.wf(),
    {
        if self.next_cycle_song_pattern_start_can_have_new {
            if let Some(sp) = self.find_first_unused_pattern_idx() {
                self.write_displayed_song_pattern(sp);
            }
        }
        self.cycle_song_pattern_start()
    }

    /// Removes the last song pattern when it is the displayed one and not a stub, putting
    /// its pattern number in the pattern clipboard, then displays the new last song pattern.
    pub fn remove_last_song_pattern(&mut self)
        requires
            old(self)@.wf(),
        ensures
            ({
                let v = old(self)@;
                let len = v.song.song_patterns.len();
                if !v.has_stub_pattern && v.displayed_song_pattern + 1 == len {
                    let sps = v.song.song_patterns.drop_last();
                    let next: usize = if sps.len() > 0 { (sps.len() - 1) as usize } else { 0 };
                    let v1 = SequencerView {
                        song: SongView { song_patterns: sps, ..v.song },
                        next_cycle_song_pattern_start_can_have_new: false,
                        default_song_pattern_clipboard: v.song.song_patterns.last(),
                        active_song_pattern: if v.active_song_pattern == v.displayed_song_pattern {
                            next
                        } else {
                            v.active_song_pattern
                        },
                        ..v
                    };
                    final(self)@ == spec_display_song_pattern(v1, next)
                } else {
                    final(self)@ == v
                }
            }),
            final(self)@.wf(),
    {
        if !self.has_stub_pattern && self.displayed_song_pattern == self.song.song_patterns.len() - 1 {
            let removed = self.song.song_patterns.remove(self.displayed_song_pattern);
            self.next_cycle_song_pattern_start_can_have_new = false;
            self.default_song_pattern_clipboard = removed;
            let next_selection = if self.song.song_patterns.len() > 0 {
                self.song.song_patterns.len() - 1
            } else {
                0
            };
            if self.active_song_pattern == self.displayed_song_pattern {
                self.active_song_pattern = next_selection;
            }
            proof {
                let v = old(self)@;
                assert(self@.song.song_patterns =~= v.song.song_patterns.drop_last());
            }
            self.display_song_pattern(next_selection);
        }
    }
}

/// The instruments of a pattern after the loaded instruments declared `ids`.
pub open spec fn with_slots_for_ids(instruments: Seq<InstrumentView>, ids: Seq<Seq<char>>) -> Seq<InstrumentView> {
    Seq::new(
        instruments.len(),
        |k: int| InstrumentView { synth_index: slot_for_id(ids, instruments[k].id), ..instruments[k] },
    )
}

/// The state with the song of a new project, its first song pattern displayed.
pub open spec fn spec_load_default(v: SequencerView) -> SequencerView {
    spec_display_song_pattern(
        SequencerView { song: spec_default_song(), has_stub_pattern: false, active_song_pattern: 0, ..v },
        0,
    )
}

/// The state after the loaded instruments declared `ids`: every instrument of the song
/// gets the slot of its identifier, and playback may start.
pub open spec fn spec_set_synth_instrument_ids(v: SequencerView, ids: Seq<Seq<char>>) -> SequencerView {
    SequencerView {
        received_instruments_ids_after_load: true,
        song: SongView {
            patterns: Seq::new(NUM_PATTERNS as nat, |p: int| with_slots_for_ids(v.song.patterns[p], ids)),
            ..v.song
        },
        synth_instrument_ids: ids,
        ..v
    }
}

/// Gives each instrument of each pattern the slot of its identifier among `ids`.
fn update_all_synth_indexes(patterns: &mut Vec<Pattern>, ids: &Vec<String>)
    ensures
        final(patterns)@.len() == old(patterns)@.len(),
        forall|q: int|
            0 <= q < old(patterns)@.len() ==> (#[trigger] final(patterns)@[q])@ == with_slots_for_ids(
                old(patterns)@[q]@,
                string_views(ids@),
            ),
{
    let ghost old_pats = patterns@;
    let mut p: usize = 0;
    while p < patterns.len()
        invariant
            patterns@.len() == old_pats.len(),
            p <= old_pats.len(),
            forall|q: int| 0 <= q < p ==> (#[trigger] patterns@[q])@ == with_slots_for_ids(old_pats[q]@, string_views(ids@)),
            forall|q: int| p <= q < old_pats.len() ==> (#[trigger] patterns@[q]) == old_pats[q],
        decreases old_pats.len() - p,
    {
        let ghost before = patterns@;
        patterns[p].update_synth_index(ids);
        assert(patterns@[p as int]@ =~= with_slots_for_ids(old_pats[p as int]@, string_views(ids@)));
        p = p + 1;
    }
}

proof fn lemma_slot_for_id_bound(ids: Seq<Seq<char>>, id: Seq<char>)
    requires
        ids.len() == NUM_INSTRUMENTS,
    ensures
        slot_for_id(ids, id) matches Some(s) ==> s < NUM_INSTRUMENTS,
{
    if exists|p: int| 0 <= p < ids.len() && ids[p] == id {
        let p = choose|p: int| 0 <= p < ids.len() && ids[p] == id && forall|q: int| 0 <= q < p ==> ids[q] != id;
        assert(exists|p: int| 0 <= p < ids.len() && ids[p] == id && forall|q: int| 0 <= q < p ==> ids[q] != id) by {
            lemma_first_position_exists(ids, id, ids.len() as int);
        }
        assert(0 <= p < 64);
        assert((p as u8) == p);
    }
}

proof fn lemma_first_position_exists(ids: Seq<Seq<char>>, id: Seq<char>, n: int)
    requires
        0 <= n <= ids.len(),
        exists|p: int| 0 <= p < n && ids[p] == id,
    ensures
        exists|p: int| 0 <= p < ids.len() && ids[p] == id && forall|q: int| 0 <= q < p ==> ids[q] != id,
    decreases n,
{
    if exists|p: int| 0 <= p < n - 1 && ids[p] == id {
        lemma_first_position_exists(ids, id, n - 1);
    } else {
        let p = n - 1;
        assert(ids[p] == id);
        assert(forall|q: int| 0 <= q < p ==> ids[q] != id);
    }
}

impl Sequencer {
    /// Copies the displayed pattern to the first unused pattern, if any, and displays
    /// that copy at the displayed song position.
    pub fn clone_displayed_song_pattern(&mut self)
        requires
            old(self)@.wf(),
        ensures
            ({
                let v = old(self)@;
                match spec_first_unused_pattern(v.song) {
                    Some(np) => final(self)@ == spec_write_displayed_song_pattern(
                        SequencerView {
                            song: SongView {
                                patterns: v.song.patterns.update(np as int, v.displayed_pattern()),
                                ..v.song
                            },
                            ..v
                        },
                        np,
                    ),
                    None => final(self)@ == v,
                }
            }),
            final(self)@.wf(),
    {
        if let Some(new_pattern_idx) = self.find_first_unused_pattern_idx() {
            let displayed_pattern = self.displayed_pattern_idx();
            let copy = self.song.patterns[displayed_pattern].duplicate();
            let ghost v = self@;
            self.song.patterns.set(new_pattern_idx, copy);
            assert(self@.song.patterns =~= v.song.patterns.update(new_pattern_idx as int, v.displayed_pattern()));
            self.write_displayed_song_pattern(new_pattern_idx);
        }
    }

    /// Replaces the song and displays its first song pattern, playback starting there.
    pub fn set_song(&mut self, song: SequencerSong)
        requires
            old(self)@.unloaded_wf(),
            song_wf(song@),
        ensures
            final(self)@ == spec_display_song_pattern(
                SequencerView { song: song@, has_stub_pattern: false, active_song_pattern: 0, ..old(self)@ },
                0,
            ),
            final(self)@.wf(),
    {
        self.song = song;
        self.has_stub_pattern = false;
        self.active_song_pattern = 0;
        self.display_song_pattern(0);
    }

    /// Replaces the song with that of a new project.
    pub fn load_default(&mut self)
        requires
            old(self)@.unloaded_wf(),
        ensures
            final(self)@ == spec_load_default(old(self)@),
            final(self)@.wf(),
    {
        let song = SequencerSong::new();
        assert(song_wf(song@));
        self.set_song(song);
    }

    /// Records the identifiers of the loaded instruments by slot, and gives each
    /// instrument of the song the slot of its identifier. Playback can then start.
    pub fn set_synth_instrument_ids(&mut self, instrument_ids: Vec<String>)
        requires
            old(self)@.unloaded_wf(),
            instrument_ids@.len() == NUM_INSTRUMENTS,
        ensures
            final(self)@ == spec_set_synth_instrument_ids(old(self)@, string_views(instrument_ids@)),
            final(self)@.unloaded_wf(),
            old(self)@.wf() ==> final(self)@.wf(),
    {
        self.received_instruments_ids_after_load = true;
        update_all_synth_indexes(&mut self.song.patterns, &instrument_ids);
        self.synth_instrument_ids = instrument_ids;
        proof {
            let v = self@;
            assert(v.song.patterns =~= Seq::new(
                NUM_PATTERNS as nat,
                |p: int| with_slots_for_ids(old(self)@.song.patterns[p], string_views(instrument_ids@)),
            ));
            assert forall|p: int, k: int|
                0 <= p < v.song.patterns.len() && 0 <= k < v.song.patterns[p].len() implies {
                    &&& (#[trigger] v.song.patterns[p][k]).steps.len() == NUM_STEPS
                    &&& v.song.patterns[p][k].synth_index matches Some(s) ==> s < NUM_INSTRUMENTS
                } by {
                assert(old(self)@.song.patterns[p][k].steps.len() == NUM_STEPS);
                lemma_slot_for_id_bound(string_views(instrument_ids@), old(self)@.song.patterns[p][k].id);
            }
        }
    }
}

/// Changing a step keeps the instruments of a pattern sound.
proof fn lemma_set_step_events_wf(
    instruments: Seq<InstrumentView>,
    slot: u8,
    id: Seq<char>,
    step: int,
    set_press_note: Option<Option<u8>>,
    set_release: Option<bool>,
    set_params: Option<(Option<i8>, Option<i8>)>,
)
    requires
        instruments_wf(instruments),
        slot < NUM_INSTRUMENTS,
        0 <= step < NUM_STEPS,
    ensures
        instruments_wf(spec_set_step_events(instruments, slot, id, step, set_press_note, set_release, set_params)),
{
    lemma_with_instrument_position(instruments, id, Some(slot));
    let s1 = with_instrument(instruments, id, Some(slot));
    let k = id_position(s1, id);
    assert(instruments_wf(s1)) by {
        if id_position(instruments, id) >= instruments.len() {
            assert forall|j: int| 0 <= j < s1.len() implies {
                &&& (#[trigger] s1[j]).steps.len() == NUM_STEPS
                &&& s1[j].synth_index matches Some(s) ==> s < NUM_INSTRUMENTS
            } by {
                if j < instruments.len() {
                    assert(s1[j] == instruments[j]);
                }
            }
        }
    }
    let steps = s1[k].steps.update(step, applied_step(s1[k].steps[step], set_press_note, set_release, set_params));
    let s2 = s1.update(k, InstrumentView { steps, ..s1[k] });
    assert(instruments_wf(s2));
    if !adds_something(set_press_note, set_release, set_params) && all_empty(steps) {
        let pred = |i: InstrumentView| i.synth_index != Some(slot);
        let f = s2.filter(pred);
        assert(f == without_slot(s2, slot));
        assert forall|j: int| 0 <= j < f.len() implies {
            &&& (#[trigger] f[j]).steps.len() == NUM_STEPS
            &&& f[j].synth_index matches Some(s) ==> s < NUM_INSTRUMENTS
        } by {
            assert(f.contains(f[j]));
            s2.lemma_filter_contains_rev(pred, f[j]);
            let i = choose|i: int| 0 <= i < s2.len() && s2[i] == f[j];
            assert(s2[i].steps.len() == NUM_STEPS);
        }
    }
}

/// The state after changing a step of the displayed instrument in the pattern at song
/// position `song_pattern`; a stub song pattern becomes real first.
pub open spec fn spec_set_pattern_step_events(
    v: SequencerView,
    step: int,
    song_pattern: int,
    set_press_note: Option<Option<u8>>,
    set_release: Option<bool>,
    set_params: Option<(Option<i8>, Option<i8>)>,
) -> SequencerView {
    let v0 = if v.has_stub_pattern { spec_commit_stub(v) } else { v };
    let p = v0.pattern_idx(song_pattern);
    SequencerView {
        song: SongView {
            patterns: v0.song.patterns.update(
                p,
                spec_set_step_events(
                    v0.song.patterns[p],
                    v0.displayed_instrument,
                    v0.displayed_instrument_id(),
                    step,
                    set_press_note,
                    set_release,
                    set_params,
                ),
            ),
            ..v0.song
        },
        ..v0
    }
}

/// The step as it was before `spec_set_pattern_step_events`.
pub open spec fn step_before_pattern_set(v: SequencerView, step: int, song_pattern: int) -> InstrumentStep {
    step_before_set(
        v.song.patterns[v.pattern_idx(song_pattern)],
        v.displayed_instrument,
        v.displayed_instrument_id(),
        step,
    )
}

impl Sequencer {
    /// Changes a step of the displayed instrument in the pattern at a song position,
    /// turning a stub song pattern into a real one first, and returns the step as it was.
    fn set_pattern_step_events(
        &mut self,
        step: usize,
        song_pattern: usize,
        set_press_note: Option<Option<u8>>,
        set_release: Option<bool>,
        set_params: Option<(Option<i8>, Option<i8>)>,
    ) -> (previous: InstrumentStep)
        requires
            old(self)@.wf(),
            step < NUM_STEPS,
            song_pattern < old(self)@.song.song_patterns.len(),
            set_press_note != Some(Some(0u8)),
        ensures
            final(self)@ == spec_set_pattern_step_events(
                old(self)@,
                step as int,
                song_pattern as int,
                set_press_note,
                set_release,
                set_params,
            ),
            previous == step_before_pattern_set(old(self)@, step as int, song_pattern as int),
            final(self)@.wf(),
    {
        if self.has_stub_pattern {
            self.commit_stub_song_pattern();
        }
        let pattern = self.pattern_idx(song_pattern);
        let ghost v0 = self@;
        assert(v0.song.patterns[pattern as int] == self.song.patterns@[pattern as int]@);
        assert(v0.synth_instrument_ids[self.displayed_instrument as int] == self.synth_instrument_ids@[self.displayed_instrument as int]@);
        let previous = self.song.patterns[pattern].set_step_events(
            self.displayed_instrument,
            &self.synth_instrument_ids[self.displayed_instrument as usize],
            step,
            set_press_note,
            set_release,
            set_params,
        );
        proof {
            let target = spec_set_pattern_step_events(
                old(self)@,
                step as int,
                song_pattern as int,
                set_press_note,
                set_release,
                set_params,
            );
            assert(self@.song.patterns =~= target.song.patterns);
            assert forall|k: int| 0 <= k < v0.song.patterns[pattern as int].len() implies {
                &&& (#[trigger] v0.song.patterns[pattern as int][k]).steps.len() == NUM_STEPS
                &&& v0.song.patterns[pattern as int][k].synth_index matches Some(s) ==> s < NUM_INSTRUMENTS
            } by {
            }
            lemma_set_step_events_wf(
                v0.song.patterns[pattern as int],
                v0.displayed_instrument,
                v0.displayed_instrument_id(),
                step as int,
                set_press_note,
                set_release,
                set_params,
            );
            assert forall|p: int, k: int|
                0 <= p < self@.song.patterns.len() && 0 <= k < self@.song.patterns[p].len() implies {
                    &&& (#[trigger] self@.song.patterns[p][k]).steps.len() == NUM_STEPS
                    &&& self@.song.patterns[p][k].synth_index matches Some(s) ==> s < NUM_INSTRUMENTS
                } by {
                if p != pattern {
                    assert(self@.song.patterns[p] == v0.song.patterns[p]);
                }
            }
        }
        previous
    }
}

/// Step `step` of the first instrument in slot `slot`, or an empty step when no instrument
/// has that slot.
pub open spec fn slot_step(instruments: Seq<InstrumentView>, slot: u8, step: int) -> InstrumentStep {
    match steps_in_slot(instruments, slot) {
        Some(ss) => ss[step],
        None => InstrumentStep::spec_empty(),
    }
}

impl SequencerView {
    /// The steps of the displayed instrument in the displayed pattern, if it has any there.
    pub open spec fn displayed_steps(self) -> Option<Seq<InstrumentStep>> {
        steps_in_slot(self.displayed_pattern(), self.displayed_instrument)
    }

    /// A step of the displayed instrument in the displayed pattern (empty when it has none).
    pub open spec fn displayed_step(self, step: int) -> InstrumentStep {
        slot_step(self.displayed_pattern(), self.displayed_instrument, step)
    }

    /// The parameter values of the displayed instrument.
    pub open spec fn displayed_params(self) -> (i8, i8) {
        self.instrument_params[self.displayed_instrument as int]
    }
}

/// What the step editor shows of the sequencer.
pub struct StepsDisplay {
    /// The steps of the displayed instrument in the displayed pattern, empty when it has none there.
    pub steps: Vec<InstrumentStep>,
    /// The playing step, or -1 when another song pattern plays.
    pub active_step: i32,
    /// The positions of the pattern's instruments to show beside it, in slot order
    /// starting after the displayed instrument, without the displayed instrument.
    pub instruments: Vec<usize>,
}

/// The playing step, or -1 when the displayed song pattern is not the playing one.
pub open spec fn shown_active_step(v: SequencerView) -> i32 {
    if v.active_song_pattern == v.displayed_song_pattern {
        v.active_step as i32
    } else {
        -1i32
    }
}

/// The positions of the instruments shown beside the displayed instrument `d`, given the
/// instrument nearest to it going forward: a pattern's `len` positions taken in turn from
/// the nearest one, skipping `d` itself.
pub open spec fn shown_instruments(len: int, nearest: Option<(usize, u8)>, d: u8) -> Seq<usize> {
    let (skip, count) = match nearest {
        Some((ii, i)) => if i == d {
            (ii + 1, len - 1)
        } else {
            (ii as int, len)
        },
        None => (0, 0),
    };
    Seq::new(count as nat, |j: int| ((skip + j) % len) as usize)
}

/// The state after copying the note and release of a pressed displayed step to the note
/// clipboard; nothing changes when the step is not pressed.
pub open spec fn spec_set_default_step_note(v: SequencerView, step: int) -> SequencerView {
    let s = v.displayed_step(step);
    if s.note != 0 {
        SequencerView { default_note: s.note, default_release: s.release, ..v }
    } else {
        v
    }
}

/// The state after copying the parameters that a displayed step sets to the displayed
/// instrument's parameters: both, or only parameter `0` or `1`.
pub open spec fn spec_set_default_step_params(v: SequencerView, step: int, only_param_num: Option<u8>) -> SequencerView {
    let s = v.displayed_step(step);
    let ip = v.displayed_params();
    let p0 = match (only_param_num, s.param0) {
        (None, Some(x)) => x,
        (Some(0u8), Some(x)) => x,
        _ => ip.0,
    };
    let p1 = match (only_param_num, s.param1) {
        (None, Some(x)) => x,
        (Some(1u8), Some(x)) => x,
        _ => ip.1,
    };
    SequencerView {
        instrument_params: v.instrument_params.update(v.displayed_instrument as int, (p0, p1)),
        ..v
    }
}

/// A parameter value moved by one, within the range of `i8`.
pub open spec fn stepped_param(val: i8, forward: bool) -> i8 {
    if forward && val < 127 {
        (val + 1) as i8
    } else if !forward && val > -128 {
        (val - 1) as i8
    } else {
        val
    }
}

impl Sequencer {
    /// A step of the first instrument in slot `slot` of pattern `pattern`, or an empty step.
    fn pattern_step(&self, pattern: usize, slot: u8, step: usize) -> (r: InstrumentStep)
        requires
            song_wf(self@.song),
            pattern < NUM_PATTERNS,
            step < NUM_STEPS,
        ensures
            r == slot_step(self@.song.patterns[pattern as int], slot, step as int),
    {
        assert(self@.song.patterns[pattern as int] == self.song.patterns@[pattern as int]@);
        match self.song.patterns[pattern].get_steps(slot) {
            Some(ss) => ss[step],
            None => InstrumentStep::empty(),
        }
    }

    /// A step of the displayed instrument in the displayed pattern (empty when it has none).
    pub fn displayed_step(&self, step: usize) -> (r: InstrumentStep)
        requires
            self@.wf(),
            step < NUM_STEPS,
        ensures
            r == self@.displayed_step(step as int),
    {
        self.pattern_step(self.displayed_pattern_idx(), self.displayed_instrument, step)
    }

    /// What the step editor shows: the steps of the displayed instrument, the playing
    /// step, and the other instruments of the displayed pattern (see `StepsDisplay`).
    pub fn steps_display(&self) -> (r: StepsDisplay)
        requires
            self@.wf(),
        ensures
            r.steps@ == Seq::new(NUM_STEPS as nat, |i: int| self@.displayed_step(i)),
            r.active_step == shown_active_step(self@),
            exists|n: Option<(usize, u8)>| {
                &&& is_nearest(self@.displayed_pattern(), self@.displayed_instrument, true, n)
                &&& r.instruments@ == shown_instruments(self@.displayed_pattern().len() as int, n, self@.displayed_instrument)
            },
    {
        let mut steps: Vec<InstrumentStep> = Vec::new();
        let mut i: usize = 0;
        while i < NUM_STEPS
            invariant
                self@.wf(),
                i <= NUM_STEPS,
                steps@ == Seq::new(i as nat, |j: int| self@.displayed_step(j)),
            decreases NUM_STEPS - i,
        {
            let s = self.displayed_step(i);
            steps.push(s);
            assert(steps@ =~= Seq::new((i + 1) as nat, |j: int| self@.displayed_step(j)));
            i = i + 1;
        }
        let active_step: i32 = if self.active_song_pattern == self.displayed_song_pattern {
            self.active_step as i32
        } else {
            -1
        };
        let pattern = &self.song.patterns[self.displayed_pattern_idx()];
        assert(pattern@ == self@.displayed_pattern());
        let len = pattern.instruments.len();
        let nearest = pattern.find_nearest_instrument_pos(self.displayed_instrument, true);
        let (skip, count): (usize, usize) = match nearest {
            Some((ii, i)) => if i == self.displayed_instrument {
                (ii + 1, len - 1)
            } else {
                (ii, len)
            },
            None => (0, 0),
        };
        let mut instruments: Vec<usize> = Vec::new();
        let mut k: usize = 0;
        while k < count
            invariant
                k <= count,
                count <= len,
                skip <= len,
                count > 0 ==> len > 0,
                instruments@ == Seq::new(k as nat, |j: int| ((skip + j) % (len as int)) as usize),
            decreases count - k,
        {
            let pos = if k < len - skip {
                skip + k
            } else {
                k - (len - skip)
            };
            assert(pos == (skip + k) % (len as int)) by (nonlinear_arith)
                requires
                    skip <= len,
                    k < len,
                    pos == if k < len - skip { skip + k } else { k - (len - skip) },
            ;
            instruments.push(pos);
            assert(instruments@ =~= Seq::new((k + 1) as nat, |j: int| ((skip + j) % (len as int)) as usize));
            k = k + 1;
        }
        assert(instruments@ =~= shown_instruments(len as int, nearest, self.displayed_instrument));
        StepsDisplay { steps, active_step, instruments }
    }

    /// Selects the next or previous instrument of the displayed pattern, if it has any.
    pub fn cycle_pattern_instrument(&mut self, forward: bool)
        requires
            old(self)@.wf(),
        ensures
            exists|n: Option<(usize, u8)>| {
                &&& is_nearest(old(self)@.displayed_pattern(), old(self)@.displayed_instrument, forward, n)
                &&& final(self)@ == match spec_next_instrument(
                    old(self)@.displayed_pattern(),
                    old(self)@.displayed_instrument,
                    forward,
                    n,
                ) {
                    Some(i) => SequencerView { displayed_instrument: i, ..old(self)@ },
                    None => old(self)@,
                }
            },
            final(self)@.wf(),
    {
        let p = self.displayed_pattern_idx();
        assert(self@.song.patterns[p as int] == self.song.patterns@[p as int]@);
        let maybe_next = self.song.patterns[p].next_instrument(self.displayed_instrument, forward);
        let ghost v = self@;
        let ghost n = choose|n: Option<(usize, u8)>| {
            &&& is_nearest(v.displayed_pattern(), v.displayed_instrument, forward, n)
            &&& maybe_next == spec_next_instrument(v.displayed_pattern(), v.displayed_instrument, forward, n)
        };
        assert(is_nearest(v.displayed_pattern(), v.displayed_instrument, forward, n));
        if let Some(instrument) = maybe_next {
            proof {
                let pat = self@.displayed_pattern();
                let j = choose|j: int| 0 <= j < pat.len() && #[trigger] has_slot(pat, j, instrument);
                assert(pat[j].synth_index == Some(instrument));
            }
            self.display_instrument(instrument)
        }
    }

    /// Copies the note and release of a pressed displayed step to the note clipboard.
    pub fn set_default_step_note(&mut self, step: usize)
        requires
            old(self)@.wf(),
            step < NUM_STEPS,
        ensures
            final(self)@ == spec_set_default_step_note(old(self)@, step as int),
            final(self)@.wf(),
    {
        let s = self.displayed_step(step);
        if let Some(note) = s.press_note() {
            self.default_note_clipboard = NoteClipboard { note, release: s.release };
        }
    }

    /// Copies the parameters that a displayed step sets (both, or only parameter `0` or
    /// `1`) to the displayed instrument's parameters, and returns the step's parameters.
    #[verifier::spinoff_prover]
    #[verifier::rlimit(40)]
    pub fn set_default_step_params(&mut self, step: usize, only_param_num: Option<u8>) -> (r: (Option<i8>, Option<i8>))
        requires
            old(self)@.wf(),
            step < NUM_STEPS,
        ensures
            final(self)@ == spec_set_default_step_params(old(self)@, step as int, only_param_num),
            r == (old(self)@.displayed_step(step as int).param0, old(self)@.displayed_step(step as int).param1),
            final(self)@.wf(),
    {
        let s = self.displayed_step(step);
        let instrument = self.displayed_instrument as usize;
        let mut params = self.instrument_params[instrument];
        let first = match only_param_num {
            None => true,
            Some(p) => p == 0,
        };
        let second = match only_param_num {
            None => true,
            Some(p) => p == 1,
        };
        if first {
            if let Some(p) = s.param0 {
                params.0 = p;
            }
        }
        if second {
            if let Some(p) = s.param1 {
                params.1 = p;
            }
        }
        self.instrument_params.set(instrument, params);
        proof {
            let v = old(self)@;
            assert(self@.instrument_params =~= spec_set_default_step_params(v, step as int, only_param_num).instrument_params);
        }
        (s.param0, s.param1)
    }

    /// Moves parameter `0` (or, for any other number, `1`) of the displayed instrument by
    /// one, within the range of `i8`, and returns both parameters.
    pub fn cycle_instrument_param(&mut self, param_num: u8, forward: bool) -> (r: (i8, i8))
        requires
            old(self)@.wf(),
        ensures
            ({
                let ip = old(self)@.displayed_params();
                r == if param_num == 0 {
                    (stepped_param(ip.0, forward), ip.1)
                } else {
                    (ip.0, stepped_param(ip.1, forward))
                }
            }),
            final(self)@ == (SequencerView {
                instrument_params: old(self)@.instrument_params.update(old(self)@.displayed_instrument as int, r),
                ..old(self)@
            }),
            final(self)@.wf(),
    {
        let instrument = self.displayed_instrument as usize;
        let mut params = self.instrument_params[instrument];
        let val = if param_num == 0 { params.0 } else { params.1 };
        let new_val = if forward && val < 127 {
            val + 1
        } else if !forward && val > -128 {
            val - 1
        } else {
            val
        };
        if param_num == 0 {
            params.0 = new_val;
        } else {
            params.1 = new_val;
        }
        self.instrument_params.set(instrument, params);
        params
    }

    /// Turns erasing on or off; turning it on or off also empties the active step of the
    /// displayed instrument.
    pub fn set_erasing(&mut self, val: bool)
        requires
            old(self)@.wf(),
        ensures
            final(self)@ == spec_set_pattern_step_events(
                SequencerView { erasing: val, ..old(self)@ },
                old(self)@.active_step as int,
                old(self)@.active_song_pattern as int,
                Some(None),
                Some(false),
                Some((None, None)),
            ),
            final(self)@.wf(),
    {
        self.erasing = val;
        self.set_pattern_step_events(
            self.active_step,
            self.active_song_pattern,
            Some(None),
            Some(false),
            Some((None, None)),
        );
    }

    /// Toggles the release of a step of the displayed instrument, taking the current flag
    /// from the active pattern, then copies the step's note to the note clipboard.
    pub fn toggle_step_release(&mut self, step: usize)
        requires
            old(self)@.wf(),
            step < NUM_STEPS,
        ensures
            final(self)@ == spec_set_default_step_note(
                spec_set_pattern_step_events(
                    old(self)@,
                    step as int,
                    old(self)@.displayed_song_pattern as int,
                    None,
                    Some(!slot_step(old(self)@.active_pattern(), old(self)@.displayed_instrument, step as int).release),
                    None,
                ),
                step as int,
            ),
            final(self)@.wf(),
    {
        let s = self.pattern_step(self.active_pattern_idx(), self.displayed_instrument, step);
        let toggled = !s.release;
        self.set_pattern_step_events(step, self.displayed_song_pattern, None, Some(toggled), None);
        self.set_default_step_note(step);
    }
}

/// The note that cycling a displayed step starts from: its press, else the note clipboard.
pub open spec fn cycle_base_note(v: SequencerView, step: int) -> u8 {
    match v.displayed_step(step).spec_press_note() {
        Some(n) => n,
        None => v.default_note,
    }
}

/// The step of a note change: an octave, or a semitone.
pub open spec fn note_increment(large_inc: bool) -> int {
    if large_inc {
        12
    } else {
        1
    }
}

/// A note moved up or down, staying within `LOWEST_NOTE..=127`; `None` keeps it.
pub open spec fn cycled_note(base: u8, forward: Option<bool>, large_inc: bool) -> u8 {
    let inc = note_increment(large_inc);
    if forward == Some(true) && base + inc <= 127 {
        (base + inc) as u8
    } else if forward == Some(false) && base - inc >= LOWEST_NOTE {
        (base - inc) as u8
    } else {
        base
    }
}

/// The state after cycling the note of a displayed step. An empty step gets the note,
/// the release from the note clipboard and the instrument's parameters, unless
/// `on_empty` asks to leave it empty.
pub open spec fn spec_cycle_step_note(v: SequencerView, step: int, forward: Option<bool>, large_inc: bool, on_empty: OnEmpty) -> SequencerView {
    let s = v.displayed_step(step);
    let ip = v.displayed_params();
    if s.note == 0 && on_empty == OnEmpty::EmptyOnEmpty {
        v
    } else {
        let new_note = cycled_note(cycle_base_note(v, step), forward, large_inc);
        if s.note == 0 {
            spec_set_pattern_step_events(
                v,
                step,
                v.displayed_song_pattern as int,
                Some(Some(new_note)),
                Some(v.default_release),
                Some((Some(ip.0), Some(ip.1))),
            )
        } else {
            spec_set_pattern_step_events(v, step, v.displayed_song_pattern as int, Some(Some(new_note)), None, None)
        }
    }
}

/// What cycling the note of a displayed step returns: the new note and the parameters
/// that apply to it, or zeros when the step stays empty.
pub open spec fn cycle_step_note_result(v: SequencerView, step: int, forward: Option<bool>, large_inc: bool, on_empty: OnEmpty) -> (u8, i8, i8) {
    let s = v.displayed_step(step);
    let ip = v.displayed_params();
    if s.note == 0 && on_empty == OnEmpty::EmptyOnEmpty {
        (0, 0, 0)
    } else {
        (
            cycled_note(cycle_base_note(v, step), forward, large_inc),
            match s.param0 {
                Some(x) => x,
                None => ip.0,
            },
            match s.param1 {
                Some(x) => x,
                None => ip.1,
            },
        )
    }
}

/// A parameter value after a change: steps of 16 wrap around, steps of one stay within
/// the range of `i8`; `None` keeps it.
pub open spec fn cycled_param(val: i8, forward: Option<bool>, large_inc: bool) -> i8 {
    if large_inc {
        if forward == Some(true) {
            val.wrapping_add(16i8)
        } else {
            val.wrapping_add(-16i8)
        }
    } else if forward == Some(true) && val < 127 {
        (val + 1) as i8
    } else if forward == Some(false) && val > -128 {
        (val - 1) as i8
    } else {
        val
    }
}

/// Parameter `0`, or for any other number parameter `1`, of a step.
pub open spec fn param_of(s: InstrumentStep, param_num: u8) -> Option<i8> {
    if param_num == 0 {
        s.param0
    } else {
        s.param1
    }
}

/// The parameters of a displayed step after cycling parameter `param_num`, which starts
/// from the instrument's parameter when the step does not set it.
pub open spec fn cycled_step_params(v: SequencerView, step: int, param_num: u8, forward: Option<bool>, large_inc: bool) -> (Option<i8>, Option<i8>) {
    let s = v.displayed_step(step);
    let ip = v.displayed_params();
    if param_num == 0 {
        let base = match s.param0 {
            Some(x) => x,
            None => ip.0,
        };
        (Some(cycled_param(base, forward, large_inc)), s.param1)
    } else {
        let base = match s.param1 {
            Some(x) => x,
            None => ip.1,
        };
        (s.param0, Some(cycled_param(base, forward, large_inc)))
    }
}

/// The state after cycling a parameter of a displayed step; a step without that
/// parameter stays as it is when `on_empty` asks so.
pub open spec fn spec_cycle_step_param(v: SequencerView, step: int, param_num: u8, forward: Option<bool>, large_inc: bool, on_empty: OnEmpty) -> SequencerView {
    if param_of(v.displayed_step(step), param_num) is None && on_empty == OnEmpty::EmptyOnEmpty {
        v
    } else {
        spec_set_pattern_step_events(
            v,
            step,
            v.displayed_song_pattern as int,
            None,
            None,
            Some(cycled_step_params(v, step, param_num, forward, large_inc)),
        )
    }
}

/// What cycling a parameter of a displayed step returns: the step's note (or the note
/// clipboard) and the parameters that apply, or zeros when nothing changed.
pub open spec fn cycle_step_param_result(v: SequencerView, step: int, param_num: u8, forward: Option<bool>, large_inc: bool, on_empty: OnEmpty) -> (u8, i8, i8) {
    if param_of(v.displayed_step(step), param_num) is None && on_empty == OnEmpty::EmptyOnEmpty {
        (0, 0, 0)
    } else {
        let sp = cycled_step_params(v, step, param_num, forward, large_inc);
        let ip = v.displayed_params();
        (
            cycle_base_note(v, step),
            match sp.0 {
                Some(x) => x,
                None => ip.0,
            },
            match sp.1 {
                Some(x) => x,
                None => ip.1,
            },
        )
    }
}

impl Sequencer {
    /// Moves the note of a displayed step up or down by a semitone or an octave, within
    /// `LOWEST_NOTE..=127`; an empty step first takes the note clipboard (see
    /// `spec_cycle_step_note`).
    pub fn cycle_step_note(
        &mut self,
        step: usize,
        forward: Option<bool>,
        large_inc: bool,
        on_empty: OnEmpty,
    ) -> (r: (u8, i8, i8))
        requires
            old(self)@.wf(),
            step < NUM_STEPS,
            forward == Some(false) ==> cycle_base_note(old(self)@, step as int) >= note_increment(large_inc),
        ensures
            final(self)@ == spec_cycle_step_note(old(self)@, step as int, forward, large_inc, on_empty),
            r == cycle_step_note_result(old(self)@, step as int, forward, large_inc, on_empty),
            final(self)@.wf(),
    {
        let s = self.displayed_step(step);
        let maybe_selected_note = s.press_note();
        if maybe_selected_note.is_none() && on_empty == OnEmpty::EmptyOnEmpty {
            return (0, 0, 0);
        }
        let inc: u8 = if large_inc { 12 } else { 1 };
        let active_note = match maybe_selected_note {
            Some(n) => n,
            None => self.default_note_clipboard.note,
        };
        let new_note = if forward == Some(true) && active_note <= 127 - inc {
            active_note + inc
        } else if forward == Some(false) && active_note - inc >= LOWEST_NOTE {
            active_note - inc
        } else {
            active_note
        };
        let instrument_params = self.instrument_params[self.displayed_instrument as usize];
        if maybe_selected_note.is_none() {
            let release = self.default_note_clipboard.release;
            self.set_pattern_step_events(
                step,
                self.displayed_song_pattern,
                Some(Some(new_note)),
                Some(release),
                Some((Some(instrument_params.0), Some(instrument_params.1))),
            );
        } else {
            self.set_pattern_step_events(step, self.displayed_song_pattern, Some(Some(new_note)), None, None);
        }
        (
            new_note,
            match s.param0 {
                Some(x) => x,
                None => instrument_params.0,
            },
            match s.param1 {
                Some(x) => x,
                None => instrument_params.1,
            },
        )
    }

    /// Changes parameter `0` (or, for any other number, `1`) of a displayed step by one,
    /// or by 16 with wrapping for `large_inc`, starting from the instrument's parameter
    /// when the step does not set it (see `spec_cycle_step_param`).
    pub fn cycle_step_param(
        &mut self,
        step: usize,
        param_num: u8,
        forward: Option<bool>,
        large_inc: bool,
        on_empty: OnEmpty,
    ) -> (r: (u8, i8, i8))
        requires
            old(self)@.wf(),
            step < NUM_STEPS,
        ensures
            final(self)@ == spec_cycle_step_param(old(self)@, step as int, param_num, forward, large_inc, on_empty),
            r == cycle_step_param_result(old(self)@, step as int, param_num, forward, large_inc, on_empty),
            final(self)@.wf(),
    {
        let s = self.displayed_step(step);
        let instrument_params = self.instrument_params[self.displayed_instrument as usize];
        let current = if param_num == 0 { s.param0 } else { s.param1 };
        if current.is_none() && on_empty == OnEmpty::EmptyOnEmpty {
            return (0, 0, 0);
        }
        let base = match current {
            Some(x) => x,
            None => if param_num == 0 {
                instrument_params.0
            } else {
                instrument_params.1
            },
        };
        let new_val = if large_inc {
            let inc: i8 = if forward == Some(true) { 16 } else { -16 };
            base.wrapping_add(inc)
        } else if forward == Some(true) && base < 127 {
            base + 1
        } else if forward == Some(false) && base > -128 {
            base - 1
        } else {
            base
        };
        let step_parameters = if param_num == 0 {
            (Some(new_val), s.param1)
        } else {
            (s.param0, Some(new_val))
        };
        self.set_pattern_step_events(step, self.displayed_song_pattern, None, None, Some(step_parameters));
        let note = match s.press_note() {
            Some(n) => n,
            None => self.default_note_clipboard.note,
        };
        (
            note,
            match step_parameters.0 {
                Some(x) => x,
                None => instrument_params.0,
            },
            match step_parameters.1 {
                Some(x) => x,
                None => instrument_params.1,
            },
        )
    }
}

/// Steps `first..=last` of `steps`, or as many empty steps when there are none.
pub open spec fn steps_range(steps: Option<Seq<InstrumentStep>>, first: int, last: int) -> Seq<InstrumentStep> {
    match steps {
        Some(ss) => ss.subrange(first, last + 1),
        None => Seq::new((last - first + 1) as nat, |i: int| InstrumentStep::spec_empty()),
    }
}

/// Parameter `param_num` of steps `first..=last` of `steps`, or as many `None`.
pub open spec fn params_range(steps: Option<Seq<InstrumentStep>>, first: int, last: int, param_num: u8) -> Seq<Option<i8>> {
    Seq::new(
        (last - first + 1) as nat,
        |i: int|
            match steps {
                Some(ss) => param_of(ss[first + i], param_num),
                None => None,
            },
    )
}

/// `steps` with steps `first..=last` emptied.
pub open spec fn cleared_steps(steps: Seq<InstrumentStep>, first: int, last: int) -> Seq<InstrumentStep> {
    Seq::new(steps.len(), |i: int| if first <= i <= last { InstrumentStep::spec_empty() } else { steps[i] })
}

/// A step with parameter `param_num` (`0`, or for any other number `1`) set to `val`.
pub open spec fn with_param(s: InstrumentStep, param_num: u8, val: Option<i8>) -> InstrumentStep {
    if param_num == 0 {
        InstrumentStep { param0: val, ..s }
    } else {
        InstrumentStep { param1: val, ..s }
    }
}

/// `steps` with parameter `param_num` of steps `first..=last` removed.
pub open spec fn cleared_params(steps: Seq<InstrumentStep>, first: int, last: int, param_num: u8) -> Seq<InstrumentStep> {
    Seq::new(steps.len(), |i: int| if first <= i <= last { with_param(steps[i], param_num, None) } else { steps[i] })
}

/// `steps` after writing `clip[i]` at step `(at + i) % 16`, in order.
pub open spec fn pasted_steps(steps: Seq<InstrumentStep>, clip: Seq<InstrumentStep>, at: int) -> Seq<InstrumentStep>
    decreases clip.len(),
{
    if clip.len() == 0 {
        steps
    } else {
        pasted_steps(steps, clip.drop_last(), at).update((at + clip.len() - 1) % (NUM_STEPS as int), clip.last())
    }
}

/// Pasting the first `k` steps of a range at its own position writes those steps there.
proof fn lemma_paste_range_prefix(base: Seq<InstrumentStep>, steps: Seq<InstrumentStep>, first: int, last: int, k: int)
    requires
        base.len() == NUM_STEPS,
        steps.len() == NUM_STEPS,
        0 <= first <= last < NUM_STEPS,
        0 <= k <= last - first + 1,
    ensures
        pasted_steps(base, steps.subrange(first, last + 1).take(k), first) == Seq::new(
            NUM_STEPS as nat,
            |i: int| if first <= i < first + k { steps[i] } else { base[i] },
        ),
    decreases k,
{
    let clip = steps.subrange(first, last + 1).take(k);
    if k == 0 {
        assert(base =~= Seq::new(NUM_STEPS as nat, |i: int| if first <= i < first + k { steps[i] } else { base[i] }));
    } else {
        lemma_paste_range_prefix(base, steps, first, last, k - 1);
        assert(clip.drop_last() =~= steps.subrange(first, last + 1).take(k - 1));
        vstd::arithmetic::div_mod::lemma_small_mod((first + k - 1) as nat, NUM_STEPS as nat);
        assert(pasted_steps(base, clip, first) =~= Seq::new(
            NUM_STEPS as nat,
            |i: int| if first <= i < first + k { steps[i] } else { base[i] },
        ));
    }
}

/// Pasting a copied range of steps back where it was copied from changes nothing.
pub proof fn lemma_paste_copy_in_place(steps: Seq<InstrumentStep>, first: int, last: int)
    requires
        steps.len() == NUM_STEPS,
        0 <= first <= last < NUM_STEPS,
    ensures
        pasted_steps(steps, steps_range(Some(steps), first, last), first) == steps,
{
    lemma_paste_range_prefix(steps, steps, first, last, last - first + 1);
    assert(steps.subrange(first, last + 1).take(last - first + 1) =~= steps.subrange(first, last + 1));
    assert(Seq::new(NUM_STEPS as nat, |i: int| if first <= i < first + (last - first + 1) { steps[i] } else { steps[i] }) =~= steps);
}

/// Pasting a cut range of steps back where it was cut from restores the steps.
pub proof fn lemma_paste_cut_restores(steps: Seq<InstrumentStep>, first: int, last: int)
    requires
        steps.len() == NUM_STEPS,
        0 <= first <= last < NUM_STEPS,
    ensures
        pasted_steps(cleared_steps(steps, first, last), steps_range(Some(steps), first, last), first) == steps,
{
    let base = cleared_steps(steps, first, last);
    lemma_paste_range_prefix(base, steps, first, last, last - first + 1);
    assert(steps.subrange(first, last + 1).take(last - first + 1) =~= steps.subrange(first, last + 1));
    assert(Seq::new(NUM_STEPS as nat, |i: int| if first <= i < first + (last - first + 1) { steps[i] } else { base[i] }) =~= steps);
}

/// `steps` after writing `clip[i]` as parameter `param_num` of step `(at + i) % 16`, in order.
pub open spec fn pasted_params(steps: Seq<InstrumentStep>, clip: Seq<Option<i8>>, at: int, param_num: u8) -> Seq<InstrumentStep>
    decreases clip.len(),
{
    if clip.len() == 0 {
        steps
    } else {
        let prev = pasted_params(steps, clip.drop_last(), at, param_num);
        let pos = (at + clip.len() - 1) % (NUM_STEPS as int);
        prev.update(pos, with_param(prev[pos], param_num, clip.last()))
    }
}

/// The instruments with the steps of the first instrument in slot `slot` replaced, if
/// there is one.
pub open spec fn with_slot_steps(instruments: Seq<InstrumentView>, slot: u8, steps: Seq<InstrumentStep>) -> Seq<InstrumentView> {
    if exists|k: int| is_first_with_slot(instruments, slot, k) {
        let k = choose|k: int| is_first_with_slot(instruments, slot, k);
        instruments.update(k, InstrumentView { steps, ..instruments[k] })
    } else {
        instruments
    }
}

/// The state with the displayed pattern replaced.
pub open spec fn with_displayed_pattern(v: SequencerView, instruments: Seq<InstrumentView>) -> SequencerView {
    SequencerView {
        song: SongView { patterns: v.song.patterns.update(v.displayed_pattern_idx(), instruments), ..v.song },
        ..v
    }
}

/// The state after the displayed instrument's steps in the displayed pattern were
/// changed by `f`, when it has steps there.
pub open spec fn with_displayed_steps(v: SequencerView, steps: Option<Seq<InstrumentStep>>) -> SequencerView {
    match steps {
        Some(ss) => with_displayed_pattern(v, with_slot_steps(v.displayed_pattern(), v.displayed_instrument, ss)),
        None => v,
    }
}

/// The displayed instrument's steps, after adding it to the displayed pattern if missing,
/// with the position of that instrument.
pub open spec fn pasting_target(v: SequencerView) -> (Seq<InstrumentView>, int) {
    let s1 = with_instrument(v.displayed_pattern(), v.displayed_instrument_id(), Some(v.displayed_instrument));
    (s1, id_position(s1, v.displayed_instrument_id()))
}

/// The state after pasting into the displayed instrument's steps (added to the displayed
/// pattern if missing): `paste` maps its steps to their new value.
pub open spec fn with_pasted(v: SequencerView, steps: Seq<InstrumentStep>) -> SequencerView {
    let (s1, k) = pasting_target(v);
    with_displayed_pattern(v, s1.update(k, InstrumentView { steps, ..s1[k] }))
}

/// Copies steps `first..=last` of `steps`.
fn copy_steps(steps: &[InstrumentStep; NUM_STEPS], first: usize, last: usize) -> (r: Vec<InstrumentStep>)
    requires
        first <= last < NUM_STEPS,
    ensures
        r@ == steps@.subrange(first as int, last + 1),
{
    let mut r: Vec<InstrumentStep> = Vec::new();
    let mut i = first;
    while i <= last
        invariant
            first <= i <= last + 1,
            last < NUM_STEPS,
            r@ == steps@.subrange(first as int, i as int),
        decreases last + 1 - i,
    {
        r.push(steps[i]);
        i = i + 1;
    }
    r
}

/// Empties steps `first..=last` of `steps` and returns them as they were.
fn cut_steps(steps: &mut [InstrumentStep; NUM_STEPS], first: usize, last: usize) -> (r: Vec<InstrumentStep>)
    requires
        first <= last < NUM_STEPS,
    ensures
        r@ == old(steps)@.subrange(first as int, last + 1),
        final(steps)@ == cleared_steps(old(steps)@, first as int, last as int),
{
    let r = copy_steps(steps, first, last);
    let mut i = first;
    while i <= last
        invariant
            first <= i <= last + 1,
            last < NUM_STEPS,
            steps@ == cleared_steps(old(steps)@, first as int, i - 1),
        decreases last + 1 - i,
    {
        steps[i] = InstrumentStep::empty();
        assert(steps@ =~= cleared_steps(old(steps)@, first as int, i as int));
        i = i + 1;
    }
    r
}

/// Parameter `param_num` of steps `first..=last` of `steps`.
fn copy_params(steps: &[InstrumentStep; NUM_STEPS], first: usize, last: usize, param_num: u8) -> (r: Vec<Option<i8>>)
    requires
        first <= last < NUM_STEPS,
    ensures
        r@ == params_range(Some(steps@), first as int, last as int, param_num),
{
    let mut r: Vec<Option<i8>> = Vec::new();
    let mut i = first;
    while i <= last
        invariant
            first <= i <= last + 1,
            last < NUM_STEPS,
            r@ == params_range(Some(steps@), first as int, i - 1, param_num),
        decreases last + 1 - i,
    {
        let p = if param_num == 0 { steps[i].param0 } else { steps[i].param1 };
        r.push(p);
        assert(r@ =~= params_range(Some(steps@), first as int, i as int, param_num));
        i = i + 1;
    }
    r
}

/// Removes parameter `param_num` of steps `first..=last` and returns the values it had.
fn cut_params(steps: &mut [InstrumentStep; NUM_STEPS], first: usize, last: usize, param_num: u8) -> (r: Vec<Option<i8>>)
    requires
        first <= last < NUM_STEPS,
    ensures
        r@ == params_range(Some(old(steps)@), first as int, last as int, param_num),
        final(steps)@ == cleared_params(old(steps)@, first as int, last as int, param_num),
{
    let r = copy_params(steps, first, last, param_num);
    let mut i = first;
    while i <= last
        invariant
            first <= i <= last + 1,
            last < NUM_STEPS,
            steps@ == cleared_params(old(steps)@, first as int, i - 1, param_num),
        decreases last + 1 - i,
    {
        let mut st = steps[i];
        if param_num == 0 {
            st.param0 = None;
        } else {
            st.param1 = None;
        }
        steps[i] = st;
        assert(steps@ =~= cleared_params(old(steps)@, first as int, i as int, param_num));
        i = i + 1;
    }
    r
}

/// `count` empty steps.
fn empty_step_range(count: usize) -> (r: Vec<InstrumentStep>)
    ensures
        r@ == Seq::new(count as nat, |i: int| InstrumentStep::spec_empty()),
{
    let mut r: Vec<InstrumentStep> = Vec::new();
    let mut i: usize = 0;
    while i < count
        invariant
            i <= count,
            r@ == Seq::new(i as nat, |j: int| InstrumentStep::spec_empty()),
        decreases count - i,
    {
        r.push(InstrumentStep::empty());
        assert(r@ =~= Seq::new((i + 1) as nat, |j: int| InstrumentStep::spec_empty()));
        i = i + 1;
    }
    r
}

/// `count` missing parameters.
fn no_params(count: usize) -> (r: Vec<Option<i8>>)
    ensures
        r@ == Seq::new(count as nat, |i: int| None::<i8>),
{
    let mut r: Vec<Option<i8>> = Vec::new();
    let mut i: usize = 0;
    while i < count
        invariant
            i <= count,
            r@ == Seq::new(i as nat, |j: int| None::<i8>),
        decreases count - i,
    {
        r.push(None);
        assert(r@ =~= Seq::new((i + 1) as nat, |j: int| None::<i8>));
        i = i + 1;
    }
    r
}

/// Writes `clip[i]` at step `(at + i) % 16`, in order.
fn paste_steps(steps: &mut [InstrumentStep; NUM_STEPS], clip: &Vec<InstrumentStep>, at: usize)
    requires
        at + clip@.len() <= usize::MAX,
    ensures
        final(steps)@ == pasted_steps(old(steps)@, clip@, at as int),
{
    let mut i: usize = 0;
    while i < clip.len()
        invariant
            i <= clip@.len(),
            at + clip@.len() <= usize::MAX,
            steps@ == pasted_steps(old(steps)@, clip@.take(i as int), at as int),
        decreases clip@.len() - i,
    {
        assert(clip@.take(i + 1).drop_last() =~= clip@.take(i as int));
        steps[(at + i) % NUM_STEPS] = clip[i];
        i = i + 1;
    }
    assert(clip@.take(clip@.len() as int) =~= clip@);
}

/// Writes `clip[i]` as parameter `param_num` of step `(at + i) % 16`, in order.
fn paste_params(steps: &mut [InstrumentStep; NUM_STEPS], clip: &Vec<Option<i8>>, at: usize, param_num: u8)
    requires
        at + clip@.len() <= usize::MAX,
    ensures
        final(steps)@ == pasted_params(old(steps)@, clip@, at as int, param_num),
{
    let mut i: usize = 0;
    while i < clip.len()
        invariant
            i <= clip@.len(),
            at + clip@.len() <= usize::MAX,
            steps@ == pasted_params(old(steps)@, clip@.take(i as int), at as int, param_num),
        decreases clip@.len() - i,
    {
        assert(clip@.take(i + 1).drop_last() =~= clip@.take(i as int));
        let pos = (at + i) % NUM_STEPS;
        let mut st = steps[pos];
        if param_num == 0 {
            st.param0 = clip[i];
        } else {
            st.param1 = clip[i];
        }
        steps[pos] = st;
        i = i + 1;
    }
    assert(clip@.take(clip@.len() as int) =~= clip@);
}

/// The state after cutting a displayed step: its note and parameters go to the
/// clipboards first, then the step is emptied; a step that was not empty also goes to the
/// selection clipboard.
pub open spec fn spec_cut_step_single_note(v: SequencerView, step: int) -> SequencerView {
    let v1 = spec_set_default_step_params(spec_set_default_step_note(v, step), step, None);
    let v2 = spec_set_pattern_step_events(
        v1,
        step,
        v1.displayed_song_pattern as int,
        Some(None),
        Some(false),
        Some((None, None)),
    );
    let cut = step_before_pattern_set(v1, step, v1.displayed_song_pattern as int);
    if cut.spec_is_empty() {
        v2
    } else {
        SequencerView { selection_clipboard: ClipboardView::WholeSteps(seq![cut]), ..v2 }
    }
}

/// The state after cutting parameter `param_num` of a displayed step: the value goes to
/// the instrument's parameters and, when the step set it, to the selection clipboard; the
/// step of the active song pattern then loses that parameter.
pub open spec fn spec_cut_step_single_param(v: SequencerView, step: int, param_num: u8) -> SequencerView {
    let s = v.displayed_step(step);
    let v1 = spec_set_default_step_params(v, step, Some(param_num));
    let v2 = if param_num == 0 && s.param0 is Some {
        SequencerView { selection_clipboard: ClipboardView::InstrumentParams(seq![s.param0]), ..v1 }
    } else if param_num == 1 && s.param1 is Some {
        SequencerView { selection_clipboard: ClipboardView::InstrumentParams(seq![s.param1]), ..v1 }
    } else {
        v1
    };
    let kept = if param_num == 0 && s.param0 is Some {
        (None, s.param1)
    } else if param_num == 1 && s.param1 is Some {
        (s.param0, None)
    } else {
        (s.param0, s.param1)
    };
    spec_set_pattern_step_events(v2, step, v2.active_song_pattern as int, None, None, Some(kept))
}

/// The steps that pasting the selection clipboard gives the displayed instrument.
pub open spec fn steps_after_note_paste(v: SequencerView, at: int) -> Seq<InstrumentStep> {
    let (s1, k) = pasting_target(v);
    match v.selection_clipboard {
        ClipboardView::WholeSteps(clip) => pasted_steps(s1[k].steps, clip, at),
        _ => s1[k].steps,
    }
}

/// The steps that pasting the parameters of the selection clipboard gives the displayed
/// instrument.
pub open spec fn steps_after_param_paste(v: SequencerView, at: int, param_num: u8) -> Seq<InstrumentStep> {
    let (s1, k) = pasting_target(v);
    match v.selection_clipboard {
        ClipboardView::InstrumentParams(clip) => pasted_params(s1[k].steps, clip, at, param_num),
        _ => s1[k].steps,
    }
}

/// The length of what the selection clipboard holds.
pub open spec fn clipboard_len(c: ClipboardView) -> int {
    match c {
        ClipboardView::Empty => 0,
        ClipboardView::InstrumentParams(p) => p.len() as int,
        ClipboardView::WholeSteps(s) => s.len() as int,
    }
}

proof fn lemma_with_instrument_wf(instruments: Seq<InstrumentView>, id: Seq<char>, slot: u8)
    requires
        instruments_wf(instruments),
        slot < NUM_INSTRUMENTS,
    ensures
        instruments_wf(with_instrument(instruments, id, Some(slot))),
        0 <= id_position(with_instrument(instruments, id, Some(slot)), id) < with_instrument(instruments, id, Some(slot)).len(),
{
    lemma_with_instrument_position(instruments, id, Some(slot));
    let s1 = with_instrument(instruments, id, Some(slot));
    if id_position(instruments, id) >= instruments.len() {
        assert forall|j: int| 0 <= j < s1.len() implies {
            &&& (#[trigger] s1[j]).steps.len() == NUM_STEPS
            &&& s1[j].synth_index matches Some(s) ==> s < NUM_INSTRUMENTS
        } by {
            if j < instruments.len() {
                assert(s1[j] == instruments[j]);
            }
        }
    }
}

impl Sequencer {
    /// Copies steps `first..=last` of the displayed instrument (empty steps when it has
    /// none in the displayed pattern) to the selection clipboard.
    pub fn copy_step_range_note(&mut self, step_range_first: usize, step_range_last: usize)
        requires
            old(self)@.wf(),
            step_range_first <= step_range_last < NUM_STEPS,
        ensures
            final(self)@ == (SequencerView {
                selection_clipboard: ClipboardView::WholeSteps(
                    steps_range(old(self)@.displayed_steps(), step_range_first as int, step_range_last as int),
                ),
                ..old(self)@
            }),
            final(self)@.wf(),
    {
        let p = self.displayed_pattern_idx();
        assert(self@.song.patterns[p as int] == self.song.patterns@[p as int]@);
        let steps = match self.song.patterns[p].get_steps(self.displayed_instrument) {
            Some(ss) => copy_steps(ss, step_range_first, step_range_last),
            None => empty_step_range(step_range_last - step_range_first + 1),
        };
        self.selection_clipboard = SelectionClipboard::WholeSteps(steps);
    }

    /// Copies parameter `param_num` of steps `first..=last` of the displayed instrument
    /// (`None` when it has no steps in the displayed pattern) to the selection clipboard.
    pub fn copy_step_range_param(&mut self, step_range_first: usize, step_range_last: usize, param_num: u8)
        requires
            old(self)@.wf(),
            step_range_first <= step_range_last < NUM_STEPS,
        ensures
            final(self)@ == (SequencerView {
                selection_clipboard: ClipboardView::InstrumentParams(
                    params_range(old(self)@.displayed_steps(), step_range_first as int, step_range_last as int, param_num),
                ),
                ..old(self)@
            }),
            final(self)@.wf(),
    {
        let p = self.displayed_pattern_idx();
        assert(self@.song.patterns[p as int] == self.song.patterns@[p as int]@);
        let values = match self.song.patterns[p].get_steps(self.displayed_instrument) {
            Some(ss) => copy_params(ss, step_range_first, step_range_last, param_num),
            None => no_params(step_range_last - step_range_first + 1),
        };
        assert(values@ =~= params_range(self@.displayed_steps(), step_range_first as int, step_range_last as int, param_num));
        self.selection_clipboard = SelectionClipboard::InstrumentParams(values);
    }

    /// Moves steps `first..=last` of the displayed instrument to the selection clipboard,
    /// leaving empty steps (empty steps go to the clipboard when it has none).
    #[verifier::spinoff_prover]
    pub fn cut_step_range_note(&mut self, step_range_first: usize, step_range_last: usize)
        requires
            old(self)@.wf(),
            step_range_first <= step_range_last < NUM_STEPS,
        ensures
            final(self)@ == (SequencerView {
                selection_clipboard: ClipboardView::WholeSteps(
                    steps_range(old(self)@.displayed_steps(), step_range_first as int, step_range_last as int),
                ),
                ..with_displayed_steps(
                    old(self)@,
                    match old(self)@.displayed_steps() {
                        Some(ss) => Some(cleared_steps(ss, step_range_first as int, step_range_last as int)),
                        None => None,
                    },
                )
            }),
            final(self)@.wf(),
    {
        let p = self.displayed_pattern_idx();
        let di = self.displayed_instrument;
        let ghost v = self@;
        assert(v.song.patterns[p as int] == self.song.patterns@[p as int]@);
        let steps = match self.song.patterns[p].get_steps_mut(di) {
            Some(ss) => cut_steps(ss, step_range_first, step_range_last),
            None => empty_step_range(step_range_last - step_range_first + 1),
        };
        proof {
            let pat = v.displayed_pattern();
            assert(self.song.patterns@[p as int]@ == self@.song.patterns[p as int]);
            if let Some(ss) = v.displayed_steps() {
                let k = choose|k: int| is_first_with_slot(pat, di, k);
                assert(self@.song.patterns =~= with_displayed_steps(v, Some(cleared_steps(ss, step_range_first as int, step_range_last as int))).song.patterns);
            } else {
                assert(self@.song.patterns =~= v.song.patterns);
            }
            lemma_displayed_pattern_steps_wf(v, self@);
        }
        self.selection_clipboard = SelectionClipboard::WholeSteps(steps);
    }

    /// Moves parameter `param_num` of steps `first..=last` of the displayed instrument to
    /// the selection clipboard, removing it from the steps.
    #[verifier::spinoff_prover]
    pub fn cut_step_range_param(&mut self, step_range_first: usize, step_range_last: usize, param_num: u8)
        requires
            old(self)@.wf(),
            step_range_first <= step_range_last < NUM_STEPS,
        ensures
            final(self)@ == (SequencerView {
                selection_clipboard: ClipboardView::InstrumentParams(
                    params_range(old(self)@.displayed_steps(), step_range_first as int, step_range_last as int, param_num),
                ),
                ..with_displayed_steps(
                    old(self)@,
                    match old(self)@.displayed_steps() {
                        Some(ss) => Some(cleared_params(ss, step_range_first as int, step_range_last as int, param_num)),
                        None => None,
                    },
                )
            }),
            final(self)@.wf(),
    {
        let p = self.displayed_pattern_idx();
        let di = self.displayed_instrument;
        let ghost v = self@;
        assert(v.song.patterns[p as int] == self.song.patterns@[p as int]@);
        let values = match self.song.patterns[p].get_steps_mut(di) {
            Some(ss) => cut_params(ss, step_range_first, step_range_last, param_num),
            None => no_params(step_range_last - step_range_first + 1),
        };
        proof {
            let pat = v.displayed_pattern();
            assert(self.song.patterns@[p as int]@ == self@.song.patterns[p as int]);
            if let Some(ss) = v.displayed_steps() {
                let k = choose|k: int| is_first_with_slot(pat, di, k);
                assert(self@.song.patterns =~= with_displayed_steps(v, Some(cleared_params(ss, step_range_first as int, step_range_last as int, param_num))).song.patterns);
            } else {
                assert(self@.song.patterns =~= v.song.patterns);
            }
            assert(values@ =~= params_range(v.displayed_steps(), step_range_first as int, step_range_last as int, param_num));
            lemma_displayed_pattern_steps_wf(v, self@);
        }
        self.selection_clipboard = SelectionClipboard::InstrumentParams(values);
    }
}

/// Changing only the steps of instruments of the displayed pattern, keeping sixteen of
/// them, keeps the state sound.
proof fn lemma_displayed_pattern_steps_wf(v: SequencerView, w: SequencerView)
    requires
        v.wf(),
        w == (SequencerView { song: SongView { patterns: w.song.patterns, ..v.song }, ..v }),
        w.song.patterns.len() == v.song.patterns.len(),
        forall|p: int| 0 <= p < v.song.patterns.len() && p != v.displayed_pattern_idx() ==> w.song.patterns[p] == v.song.patterns[p],
        w.displayed_pattern().len() == v.displayed_pattern().len(),
        forall|k: int| 0 <= k < v.displayed_pattern().len() ==> {
            &&& (#[trigger] w.displayed_pattern()[k]).steps.len() == NUM_STEPS
            &&& w.displayed_pattern()[k].synth_index == v.displayed_pattern()[k].synth_index
        },
    ensures
        w.wf(),
{
    assert forall|p: int, k: int|
        0 <= p < w.song.patterns.len() && 0 <= k < w.song.patterns[p].len() implies {
            &&& (#[trigger] w.song.patterns[p][k]).steps.len() == NUM_STEPS
            &&& w.song.patterns[p][k].synth_index matches Some(s) ==> s < NUM_INSTRUMENTS
        } by {
        if p != v.displayed_pattern_idx() {
            assert(w.song.patterns[p] == v.song.patterns[p]);
        } else {
            assert(v.song.patterns[p][k].steps.len() == NUM_STEPS);
        }
    }
}

impl Sequencer {
    /// Pastes the steps of the selection clipboard into the displayed instrument from
    /// step `at_step` on, wrapping around after the last step; the instrument is added to
    /// the displayed pattern if missing (see `steps_after_note_paste`).
    #[verifier::spinoff_prover]
    pub fn paste_step_range_note(&mut self, at_step: usize)
        requires
            old(self)@.wf(),
            at_step + clipboard_len(old(self)@.selection_clipboard) <= usize::MAX,
        ensures
            final(self)@ == with_pasted(old(self)@, steps_after_note_paste(old(self)@, at_step as int)),
            final(self)@.wf(),
    {
        let p = self.displayed_pattern_idx();
        let di = self.displayed_instrument;
        let ghost v = self@;
        assert(v.song.patterns[p as int] == self.song.patterns@[p as int]@);
        assert(v.displayed_instrument_id() == self.synth_instrument_ids@[di as int]@);
        let steps = self.song.patterns[p].get_steps_mut_or_insert(&self.synth_instrument_ids[di as usize], Some(di));
        match &self.selection_clipboard {
            SelectionClipboard::WholeSteps(clip) => paste_steps(steps, clip, at_step),
            _ => {},
        }
        proof {
            assert(self.song.patterns@[p as int]@ == self@.song.patterns[p as int]);
            assert(self@.song.patterns =~= with_pasted(v, steps_after_note_paste(v, at_step as int)).song.patterns);
            lemma_paste_wf(v, self@);
        }
    }

    /// Pastes the parameter values of the selection clipboard as parameter `param_num` of
    /// the displayed instrument from step `at_step` on, wrapping around after the last
    /// step; the instrument is added to the displayed pattern if missing.
    #[verifier::spinoff_prover]
    pub fn paste_step_range_param(&mut self, at_step: usize, param_num: u8)
        requires
            old(self)@.wf(),
            at_step + clipboard_len(old(self)@.selection_clipboard) <= usize::MAX,
        ensures
            final(self)@ == with_pasted(old(self)@, steps_after_param_paste(old(self)@, at_step as int, param_num)),
            final(self)@.wf(),
    {
        let p = self.displayed_pattern_idx();
        let di = self.displayed_instrument;
        let ghost v = self@;
        assert(v.song.patterns[p as int] == self.song.patterns@[p as int]@);
        assert(v.displayed_instrument_id() == self.synth_instrument_ids@[di as int]@);
        let steps = self.song.patterns[p].get_steps_mut_or_insert(&self.synth_instrument_ids[di as usize], Some(di));
        match &self.selection_clipboard {
            SelectionClipboard::InstrumentParams(clip) => paste_params(steps, clip, at_step, param_num),
            _ => {},
        }
        proof {
            assert(self.song.patterns@[p as int]@ == self@.song.patterns[p as int]);
            assert(self@.song.patterns =~= with_pasted(v, steps_after_param_paste(v, at_step as int, param_num)).song.patterns);
            lemma_paste_wf(v, self@);
        }
    }

    /// Cuts a displayed step (see `spec_cut_step_single_note`).
    pub fn cut_step_single_note(&mut self, step: usize)
        requires
            old(self)@.wf(),
            step < NUM_STEPS,
        ensures
            final(self)@ == spec_cut_step_single_note(old(self)@, step as int),
            final(self)@.wf(),
    {
        self.set_default_step_note(step);
        self.set_default_step_params(step, None);
        let cut_step = self.set_pattern_step_events(
            step,
            self.displayed_song_pattern,
            Some(None),
            Some(false),
            Some((None, None)),
        );
        if !cut_step.is_empty() {
            let mut v: Vec<InstrumentStep> = Vec::new();
            v.push(cut_step);
            self.selection_clipboard = SelectionClipboard::WholeSteps(v);
            assert(self@.selection_clipboard == ClipboardView::WholeSteps(seq![cut_step]));
        }
    }

    /// Cuts parameter `param_num` of a displayed step (see `spec_cut_step_single_param`).
    pub fn cut_step_single_param(&mut self, step: usize, param_num: u8)
        requires
            old(self)@.wf(),
            step < NUM_STEPS,
        ensures
            final(self)@ == spec_cut_step_single_param(old(self)@, step as int, param_num),
            final(self)@.wf(),
    {
        let mut cut_params = self.set_default_step_params(step, Some(param_num));
        if param_num == 0 && cut_params.0.is_some() {
            let mut v: Vec<Option<i8>> = Vec::new();
            v.push(cut_params.0);
            cut_params.0 = None;
            self.selection_clipboard = SelectionClipboard::InstrumentParams(v);
            assert(v@ == seq![old(self)@.displayed_step(step as int).param0]);
        } else if param_num == 1 && cut_params.1.is_some() {
            let mut v: Vec<Option<i8>> = Vec::new();
            v.push(cut_params.1);
            cut_params.1 = None;
            self.selection_clipboard = SelectionClipboard::InstrumentParams(v);
            assert(v@ == seq![old(self)@.displayed_step(step as int).param1]);
        }
        self.set_pattern_step_events(step, self.active_song_pattern, None, None, Some(cut_params));
    }

    /// Removes the note of a pressed displayed step (moving the step to the selection
    /// clipboard), or presses an empty one with the note clipboard.
    pub fn toggle_step(&mut self, step: usize)
        requires
            old(self)@.wf(),
            step < NUM_STEPS,
        ensures
            old(self)@.displayed_step(step as int).note != 0 ==> final(self)@ == (SequencerView {
                selection_clipboard: ClipboardView::WholeSteps(
                    steps_range(old(self)@.displayed_steps(), step as int, step as int),
                ),
                ..with_displayed_steps(
                    old(self)@,
                    match old(self)@.displayed_steps() {
                        Some(ss) => Some(cleared_steps(ss, step as int, step as int)),
                        None => None,
                    },
                )
            }),
            old(self)@.displayed_step(step as int).note == 0 ==> final(self)@ == spec_cycle_step_note(
                old(self)@,
                step as int,
                None,
                false,
                OnEmpty::PasteOnEmpty,
            ),
            final(self)@.wf(),
    {
        let s = self.displayed_step(step);
        if s.press() {
            self.cut_step_range_note(step, step);
        } else {
            self.cycle_step_note(step, None, false, OnEmpty::PasteOnEmpty);
        }
    }
}

/// Pasting into the displayed instrument keeps the state sound.
proof fn lemma_paste_wf(v: SequencerView, w: SequencerView)
    requires
        v.wf(),
        ({
            let (s1, k) = pasting_target(v);
            w == (SequencerView {
                song: SongView {
                    patterns: v.song.patterns.update(v.displayed_pattern_idx(), s1.update(k, InstrumentView { steps: w.song.patterns[v.displayed_pattern_idx()][k].steps, ..s1[k] })),
                    ..v.song
                },
                ..v
            })
            && w.song.patterns[v.displayed_pattern_idx()][k].steps.len() == NUM_STEPS
        }),
    ensures
        w.wf(),
{
    let pat = v.displayed_pattern();
    assert(instruments_wf(pat)) by {
        assert forall|k: int| 0 <= k < pat.len() implies {
            &&& (#[trigger] pat[k]).steps.len() == NUM_STEPS
            &&& pat[k].synth_index matches Some(s) ==> s < NUM_INSTRUMENTS
        } by {
        }
    }
    lemma_with_instrument_wf(pat, v.displayed_instrument_id(), v.displayed_instrument);
    let (s1, k) = pasting_target(v);
    let np = w.song.patterns[v.displayed_pattern_idx()];
    assert forall|p: int, j: int|
        0 <= p < w.song.patterns.len() && 0 <= j < w.song.patterns[p].len() implies {
            &&& (#[trigger] w.song.patterns[p][j]).steps.len() == NUM_STEPS
            &&& w.song.patterns[p][j].synth_index matches Some(s) ==> s < NUM_INSTRUMENTS
        } by {
        if p != v.displayed_pattern_idx() {
            assert(w.song.patterns[p] == v.song.patterns[p]);
        } else if j != k {
            assert(w.song.patterns[p][j] == s1[j]);
        }
    }
}

/// The state after playback moved one step forward. Song playback moves through the song
/// patterns; pattern playback stays on its pattern, but moves to the displayed song
/// pattern after the last step when another one is displayed.
pub open spec fn spec_advance_step(v: SequencerView) -> SequencerView {
    if v.play_song_mode {
        let n = spec_next_step_and_song_pattern(
            true,
            v.active_step as int,
            v.active_song_pattern as int,
            v.spec_num_song_patterns(),
        );
        SequencerView { active_step: n.0 as usize, active_song_pattern: n.1 as usize, ..v }
    } else if v.active_step == NUM_STEPS - 1 && v.displayed_song_pattern != v.active_song_pattern {
        SequencerView { active_step: 0, active_song_pattern: v.displayed_song_pattern, ..v }
    } else {
        SequencerView { active_step: ((v.active_step + 1) % (NUM_STEPS as int)) as usize, ..v }
    }
}

/// What an instrument in slot `slot` is asked on a step: a press with the step's
/// parameters (the default value for those it does not set), or else the parameters
/// that the step sets.
pub open spec fn step_press_events(slot: u8, s: InstrumentStep) -> Seq<(u8, StepEvent)> {
    if s.note != 0 {
        seq![
            (
                slot,
                StepEvent::Press(
                    s.note,
                    match s.param0 {
                        Some(x) => x,
                        None => DEFAULT_PARAM_VAL,
                    },
                    match s.param1 {
                        Some(x) => x,
                        None => DEFAULT_PARAM_VAL,
                    },
                ),
            ),
        ]
    } else {
        let e0 = match s.param0 {
            Some(x) => seq![(slot, StepEvent::SetParam(0, x))],
            None => Seq::empty(),
        };
        let e1 = match s.param1 {
            Some(x) => seq![(slot, StepEvent::SetParam(1, x))],
            None => Seq::empty(),
        };
        e0 + e1
    }
}

/// The press and parameter events of a step for the first `n` instruments of a pattern,
/// in order, and whether the displayed instrument is still to be skipped. Instruments
/// without a slot and muted ones give nothing; when `skip` is set, the first instrument in
/// the displayed slot gives nothing and clears it.
pub open spec fn presses_upto(
    pattern: Seq<InstrumentView>,
    muted: Set<u8>,
    displayed: u8,
    step: int,
    skip: bool,
    n: int,
) -> (Seq<(u8, StepEvent)>, bool)
    decreases n,
{
    if n <= 0 {
        (Seq::empty(), skip)
    } else {
        let (ev, flag) = presses_upto(pattern, muted, displayed, step, skip, n - 1);
        match pattern[n - 1].synth_index {
            None => (ev, flag),
            Some(i) => if muted.contains(i) {
                (ev, flag)
            } else if flag && i == displayed {
                (ev, false)
            } else {
                (ev + step_press_events(i, slot_step(pattern, i, step)), flag)
            },
        }
    }
}

/// The release events of a step for the first `n` instruments of a pattern, in order;
/// instruments without a slot, muted ones, and when `skip` is set those in the displayed
/// slot, give nothing.
pub open spec fn releases_upto(
    pattern: Seq<InstrumentView>,
    muted: Set<u8>,
    displayed: u8,
    step: int,
    skip: bool,
    n: int,
) -> Seq<(u8, StepEvent)>
    decreases n,
{
    if n <= 0 {
        Seq::empty()
    } else {
        let ev = releases_upto(pattern, muted, displayed, step, skip, n - 1);
        match pattern[n - 1].synth_index {
            None => ev,
            Some(i) => if muted.contains(i) || (skip && i == displayed) || !slot_step(pattern, i, step).release {
                ev
            } else {
                ev.push((i, StepEvent::Release))
            },
        }
    }
}

/// The press and parameter events of the active step, and whether the displayed
/// instrument is still to be skipped afterwards.
pub open spec fn active_presses(v: SequencerView) -> (Seq<(u8, StepEvent)>, bool) {
    presses_upto(
        v.active_pattern(),
        v.muted_instruments,
        v.displayed_instrument,
        v.active_step as int,
        v.just_recorded_over_next_step,
        v.active_pattern().len() as int,
    )
}

/// The release events of the active step.
pub open spec fn active_releases(v: SequencerView) -> Seq<(u8, StepEvent)> {
    releases_upto(
        v.active_pattern(),
        v.muted_instruments,
        v.displayed_instrument,
        v.active_step as int,
        v.just_recorded_over_next_step,
        v.active_pattern().len() as int,
    )
}

/// Whether a frame starts a step.
pub open spec fn starts_step(v: SequencerView, frame: u32) -> bool {
    frame % v.song.frames_per_step == 0
}

/// The state after the playback moved to a new step (on a frame that starts one): the
/// step advances, the erasing mode empties the new active step, and its presses are
/// played.
pub open spec fn spec_enter_step(v: SequencerView) -> SequencerView {
    let v2 = spec_advance_step(v);
    let v3 = if v2.erasing {
        spec_set_pattern_step_events(
            v2,
            v2.active_step as int,
            v2.active_song_pattern as int,
            Some(None),
            Some(false),
            Some((None, None)),
        )
    } else {
        v2
    };
    SequencerView { just_recorded_over_next_step: active_presses(v3).1, ..v3 }
}

/// The state after one frame of playback.
pub open spec fn spec_advance_frame(v: SequencerView) -> SequencerView {
    if !v.playing {
        v
    } else {
        match v.active_frame {
            None => SequencerView {
                active_frame: Some(1),
                just_recorded_over_next_step: active_presses(v).1,
                ..v
            },
            Some(frame) => if starts_step(v, frame) {
                spec_enter_step(SequencerView { active_frame: Some((frame + 1) as u32), ..v })
            } else {
                SequencerView { active_frame: Some((frame + 1) as u32), ..v }
            },
        }
    }
}

/// What one frame of playback returns: the new active step when playback starts or
/// moves to a new step, with the events to play (the releases of the step that ends,
/// then the presses of the step that starts).
pub open spec fn advance_frame_result(v: SequencerView) -> (Option<u32>, Seq<(u8, StepEvent)>) {
    if !v.playing {
        (None, Seq::empty())
    } else {
        match v.active_frame {
            None => (Some(v.active_step as u32), active_presses(v).0),
            Some(frame) => if starts_step(v, frame) {
                let v1 = SequencerView { active_frame: Some((frame + 1) as u32), ..v };
                let v2 = spec_advance_step(v1);
                let v3 = if v2.erasing {
                    spec_set_pattern_step_events(
                        v2,
                        v2.active_step as int,
                        v2.active_song_pattern as int,
                        Some(None),
                        Some(false),
                        Some((None, None)),
                    )
                } else {
                    v2
                };
                (Some(v3.active_step as u32), active_releases(v1) + active_presses(v3).0)
            } else {
                (None, Seq::empty())
            },
        }
    }
}

/// Adds the press and parameter events of step `step` of the instruments of `pattern` to
/// `events` (see `presses_upto`) and returns whether the displayed slot is still to be
/// skipped.
fn collect_presses(
    pattern: &Pattern,
    muted: &[bool; 256],
    displayed: u8,
    step: usize,
    skip: bool,
    events: &mut Vec<(u8, StepEvent)>,
) -> (flag: bool)
    requires
        step < NUM_STEPS,
        instruments_wf(pattern@),
    ensures
        ({
            let (ev, f) = presses_upto(pattern@, muted_set(muted@), displayed, step as int, skip, pattern@.len() as int);
            final(events)@ == old(events)@ + ev && flag == f
        }),
{
    let mut flag = skip;
    let mut ii: usize = 0;
    while ii < pattern.instruments.len()
        invariant
            ii <= pattern@.len(),
            pattern@.len() == pattern.instruments@.len(),
            step < NUM_STEPS,
            ({
                let (ev, f) = presses_upto(pattern@, muted_set(muted@), displayed, step as int, skip, ii as int);
                events@ == old(events)@ + ev && flag == f
            }),
        decreases pattern@.len() - ii,
    {
        assert(pattern@[ii as int] == pattern.instruments@[ii as int]@);
        let ghost before = events@;
        match pattern.instruments[ii].synth_index {
            None => {},
            Some(i) => {
                if muted[i as usize] {
                } else if flag && i == displayed {
                    flag = false;
                } else {
                    let s = match pattern.get_steps(i) {
                        Some(ss) => ss[step],
                        None => InstrumentStep::empty(),
                    };
                    if s.note != 0 {
                        let p0 = match s.param0 {
                            Some(x) => x,
                            None => DEFAULT_PARAM_VAL,
                        };
                        let p1 = match s.param1 {
                            Some(x) => x,
                            None => DEFAULT_PARAM_VAL,
                        };
                        events.push((i, StepEvent::Press(s.note, p0, p1)));
                    } else {
                        if let Some(val) = s.param0 {
                            events.push((i, StepEvent::SetParam(0, val)));
                        }
                        if let Some(val) = s.param1 {
                            events.push((i, StepEvent::SetParam(1, val)));
                        }
                    }
                    assert(events@ =~= before + step_press_events(i, slot_step(pattern@, i, step as int)));
                }
            },
        }
        ii = ii + 1;
    }
    flag
}

/// Adds the release events of step `step` of the instruments of `pattern` to `events`
/// (see `releases_upto`).
fn collect_releases(
    pattern: &Pattern,
    muted: &[bool; 256],
    displayed: u8,
    step: usize,
    skip: bool,
    events: &mut Vec<(u8, StepEvent)>,
)
    requires
        step < NUM_STEPS,
        instruments_wf(pattern@),
    ensures
        final(events)@ == old(events)@ + releases_upto(pattern@, muted_set(muted@), displayed, step as int, skip, pattern@.len() as int),
{
    let mut ii: usize = 0;
    while ii < pattern.instruments.len()
        invariant
            ii <= pattern@.len(),
            pattern@.len() == pattern.instruments@.len(),
            step < NUM_STEPS,
            events@ == old(events)@ + releases_upto(pattern@, muted_set(muted@), displayed, step as int, skip, ii as int),
        decreases pattern@.len() - ii,
    {
        assert(pattern@[ii as int] == pattern.instruments@[ii as int]@);
        let ghost before = events@;
        match pattern.instruments[ii].synth_index {
            None => {},
            Some(i) => {
                if muted[i as usize] || (skip && i == displayed) {
                } else {
                    let release = match pattern.get_steps(i) {
                        Some(ss) => ss[step].release,
                        None => false,
                    };
                    if release {
                        events.push((i, StepEvent::Release));
                        assert(events@ =~= before.push((i, StepEvent::Release)));
                    }
                }
            },
        }
        assert(events@ =~= old(events)@ + releases_upto(pattern@, muted_set(muted@), displayed, step as int, skip, ii + 1));
        ii = ii + 1;
    }
}

impl Sequencer {
    /// Moves playback one step forward (see `spec_advance_step`).
    fn advance_step(&mut self)
        requires
            old(self)@.wf(),
        ensures
            final(self)@ == spec_advance_step(old(self)@),
            final(self)@.wf(),
    {
        let next_step = if self.play_song_mode {
            let num = self.num_song_patterns();
            let (next_step, next_song_pattern) = Self::next_step_and_pattern_and_song_pattern(
                true,
                self.active_step,
                self.active_song_pattern,
                num,
            );
            if next_song_pattern != self.active_song_pattern {
                self.activate_song_pattern(next_song_pattern);
            }
            next_step
        } else {
            if self.active_step == NUM_STEPS - 1 && self.displayed_song_pattern != self.active_song_pattern {
                let d = self.displayed_song_pattern;
                self.activate_song_pattern(d);
                0
            } else {
                (self.active_step + 1) % NUM_STEPS
            }
        };
        self.activate_step(next_step);
    }

    /// Adds the press and parameter events of the active step to `note_events`; the
    /// first instrument in the displayed slot is skipped once after a recording on the
    /// next step.
    fn handle_active_step_presses_and_params(&mut self, note_events: &mut Vec<(u8, StepEvent)>)
        requires
            old(self)@.wf(),
        ensures
            final(note_events)@ == old(note_events)@ + active_presses(old(self)@).0,
            final(self)@ == (SequencerView { just_recorded_over_next_step: active_presses(old(self)@).1, ..old(self)@ }),
            final(self)@.wf(),
    {
        let p = self.active_pattern_idx();
        let ghost v = self@;
        assert(v.song.patterns[p as int] == self.song.patterns@[p as int]@);
        assert(instruments_wf(v.active_pattern())) by {
            let pat = v.active_pattern();
            assert forall|k: int| 0 <= k < pat.len() implies {
                &&& (#[trigger] pat[k]).steps.len() == NUM_STEPS
                &&& pat[k].synth_index matches Some(s) ==> s < NUM_INSTRUMENTS
            } by {
            }
        }
        let flag = collect_presses(
            &self.song.patterns[p],
            &self.muted_instruments,
            self.displayed_instrument,
            self.active_step,
            self.just_recorded_over_next_step,
            note_events,
        );
        self.just_recorded_over_next_step = flag;
    }

    /// Adds the release events of the active step to `note_events`.
    fn handle_active_step_releases(&self, note_events: &mut Vec<(u8, StepEvent)>)
        requires
            self@.wf(),
        ensures
            final(note_events)@ == old(note_events)@ + active_releases(self@),
    {
        let p = self.active_pattern_idx();
        let ghost v = self@;
        assert(v.song.patterns[p as int] == self.song.patterns@[p as int]@);
        assert(instruments_wf(v.active_pattern())) by {
            let pat = v.active_pattern();
            assert forall|k: int| 0 <= k < pat.len() implies {
                &&& (#[trigger] pat[k]).steps.len() == NUM_STEPS
                &&& pat[k].synth_index matches Some(s) ==> s < NUM_INSTRUMENTS
            } by {
            }
        }
        collect_releases(
            &self.song.patterns[p],
            &self.muted_instruments,
            self.displayed_instrument,
            self.active_step,
            self.just_recorded_over_next_step,
            note_events,
        );
    }

    /// Moves playback one frame forward. On the first frame and on each frame that starts
    /// a step, returns the active step and the events to play (see `spec_advance_frame`
    /// and `advance_frame_result`).
    #[verifier::spinoff_prover]
    #[verifier::rlimit(50)]
    pub fn advance_frame(&mut self) -> (r: (Option<u32>, Vec<(u8, StepEvent)>))
        requires
            old(self)@.wf(),
            old(self)@.playing && old(self)@.active_frame is Some ==> {
                &&& old(self)@.song.frames_per_step > 0
                &&& old(self)@.active_frame->0 < u32::MAX
            },
        ensures
            final(self)@ == spec_advance_frame(old(self)@),
            (r.0, r.1@) == advance_frame_result(old(self)@),
            final(self)@.wf(),
    {
        let mut note_events: Vec<(u8, StepEvent)> = Vec::new();
        if !self.playing {
            return (None, note_events);
        }
        match self.active_frame {
            None => {
                self.active_frame = Some(1);
                self.handle_active_step_presses_and_params(&mut note_events);
                (Some(self.active_step as u32), note_events)
            },
            Some(frame) => {
                if frame % self.song.frames_per_step == 0 {
                    self.active_frame = Some(frame + 1);
                    let ghost v1 = self@;
                    self.handle_active_step_releases(&mut note_events);
                    self.advance_step();
                    assert(self@ == spec_advance_step(v1));
                    if self.erasing {
                        self.set_pattern_step_events(
                            self.active_step,
                            self.active_song_pattern,
                            Some(None),
                            Some(false),
                            Some((None, None)),
                        );
                    }
                    self.handle_active_step_presses_and_params(&mut note_events);
                    (Some(self.active_step as u32), note_events)
                } else {
                    self.active_frame = Some(frame + 1);
                    (None, note_events)
                }
            },
        }
    }
}

/// A key of an instrument that the user played.
#[derive(Clone, Copy, Debug, PartialEq, Eq, Structural)]
pub enum KeyEvent {
    Press,
    Release,
}

impl SequencerView {
    /// The playback frame, or 0 before playback starts.
    pub open spec fn frame_or_zero(self) -> int {
        match self.active_frame {
            Some(f) => f as int,
            None => 0,
        }
    }
}

/// Where a key press played during playback is recorded: on the active step, or on the
/// next one (the flag is then set) when the press comes at or after the step's snap frame.
pub open spec fn press_target(v: SequencerView) -> (int, int, bool) {
    if v.frame_or_zero() % (v.song.frames_per_step as int) < v.spec_snap_at_step_frame() {
        (v.active_step as int, v.active_song_pattern as int, false)
    } else {
        let n = spec_next_step_and_song_pattern(
            true,
            v.active_step as int,
            v.active_song_pattern as int,
            v.spec_num_song_patterns(),
        );
        (n.0, n.1, true)
    }
}

/// The frame at which a note ends: the press frame plus the note's length rounded to
/// whole steps, less one frame.
pub open spec fn release_end_frame(v: SequencerView) -> int {
    let fps = v.song.frames_per_step as int;
    let lp = v.last_press_frame->0 as int;
    let len = ((v.frame_or_zero() - lp) + fps / 2) / fps * fps;
    lp + (if len > 1 { len } else { 1 }) - 1
}

/// Where a key release played during playback is recorded: at the end of the previous,
/// the active or the next step (the flag is then set), from where the note's rounded end
/// falls relative to the steps' snap frames.
pub open spec fn release_target(v: SequencerView) -> (int, int, bool) {
    let fps = v.song.frames_per_step as int;
    let end = release_end_frame(v);
    let prev = end / fps < v.frame_or_zero() / fps;
    let snaps = end % fps < v.spec_snap_at_step_frame();
    if prev && snaps {
        let n = spec_next_step_and_song_pattern(
            false,
            v.active_step as int,
            v.active_song_pattern as int,
            v.spec_num_song_patterns(),
        );
        (n.0, n.1, false)
    } else if prev || snaps {
        (v.active_step as int, v.active_song_pattern as int, false)
    } else {
        let n = spec_next_step_and_song_pattern(
            true,
            v.active_step as int,
            v.active_song_pattern as int,
            v.spec_num_song_patterns(),
        );
        (n.0, n.1, true)
    }
}

/// A release can be placed: a press was recorded no later than the current frame, and
/// the rounding stays within `u32`.
/// The state after recording a played note on the displayed instrument with its non-zero
/// parameters: the press frame is remembered and the note goes to the note clipboard.
pub open spec fn spec_record_press(v: SequencerView, note: u8) -> SequencerView {
    let ps = v.displayed_params();
    let v1 = spec_record_key_event(v, KeyEvent::Press, Some(note), Some((nonzero_param(ps.0), nonzero_param(ps.1))));
    SequencerView { last_press_frame: Some(v.frame_or_zero() as u32), default_note: note, ..v1 }
}

pub open spec fn release_placeable(v: SequencerView) -> bool {
    &&& v.last_press_frame is Some
    &&& v.last_press_frame->0 <= v.frame_or_zero()
    &&& v.frame_or_zero() + v.song.frames_per_step / 2 <= u32::MAX
}

/// The state after recording a played key on the displayed instrument. Without playback
/// a press goes to the active step (pressed and released if it was not pressed) and a
/// release is ignored; during playback both are placed by `press_target` and
/// `release_target`. Nothing is recorded when recording is off.
pub open spec fn spec_record_key_event(
    v: SequencerView,
    event: KeyEvent,
    note: Option<u8>,
    params: Option<(Option<i8>, Option<i8>)>,
) -> SequencerView {
    if !v.recording {
        v
    } else if !v.playing {
        match event {
            KeyEvent::Press => {
                let pressed = slot_step(v.active_pattern(), v.displayed_instrument, v.active_step as int).note != 0;
                spec_set_pattern_step_events(
                    v,
                    v.active_step as int,
                    v.active_song_pattern as int,
                    Some(note),
                    if pressed { None } else { Some(true) },
                    params,
                )
            },
            KeyEvent::Release => v,
        }
    } else {
        match event {
            KeyEvent::Press => {
                let (st, sp, over) = press_target(v);
                let v1 = if over { SequencerView { just_recorded_over_next_step: true, ..v } } else { v };
                spec_set_pattern_step_events(v1, st, sp, Some(note), None, params)
            },
            KeyEvent::Release => {
                let (st, sp, over) = release_target(v);
                let v1 = if over { SequencerView { just_recorded_over_next_step: true, ..v } } else { v };
                spec_set_pattern_step_events(v1, st, sp, None, Some(true), None)
            },
        }
    }
}

/// A parameter value to record with a press: `None` for 0.
pub open spec fn nonzero_param(x: i8) -> Option<i8> {
    if x != 0 {
        Some(x)
    } else {
        None
    }
}

impl Sequencer {
    /// Records a played key (see `spec_record_key_event`).
    fn record_key_event(&mut self, event: KeyEvent, note: Option<u8>, params: Option<(Option<i8>, Option<i8>)>)
        requires
            old(self)@.wf(),
            note != Some(0u8),
            old(self)@.recording && old(self)@.playing ==> old(self)@.song.frames_per_step > 0,
            old(self)@.recording && old(self)@.playing && event == KeyEvent::Release ==> release_placeable(old(self)@),
        ensures
            final(self)@ == spec_record_key_event(old(self)@, event, note, params),
            final(self)@.wf(),
    {
        if !self.recording {
            return;
        }
        if !self.playing {
            match event {
                KeyEvent::Press => {
                    let s = self.pattern_step(self.active_pattern_idx(), self.displayed_instrument, self.active_step);
                    let release = if s.press() { None } else { Some(true) };
                    self.set_pattern_step_events(self.active_step, self.active_song_pattern, Some(note), release, params);
                },
                KeyEvent::Release => {},
            }
            return;
        }
        let fps = self.song.frames_per_step;
        let af = self.active_frame_or_zero();
        let snap = self.snap_at_step_frame();
        match event {
            KeyEvent::Press => {
                let (step, song_pattern) = if af % fps < snap {
                    (self.active_step, self.active_song_pattern)
                } else {
                    self.just_recorded_over_next_step = true;
                    let num = self.num_song_patterns();
                    Self::next_step_and_pattern_and_song_pattern(true, self.active_step, self.active_song_pattern, num)
                };
                self.set_pattern_step_events(step, song_pattern, Some(note), None, params);
            },
            KeyEvent::Release => {
                let lp = match self.last_press_frame {
                    Some(x) => x,
                    None => 0,
                };
                let n = af - lp;
                let q = (n + fps / 2) / fps;
                let ghost x: int = (n + fps / 2) as int;
                assert(x / (fps as int) * (fps as int) <= x) by (nonlinear_arith)
                    requires
                        fps > 0,
                        x >= 0,
                ;
                let len = q * fps;
                let rounded_end_frame = lp + ((if len > 1 { len } else { 1 }) - 1);
                let is_end_in_prev_step = rounded_end_frame / fps < af / fps;
                let end_snaps_to_next_step = rounded_end_frame % fps < snap;
                let num = self.num_song_patterns();
                let (step, song_pattern) = if is_end_in_prev_step && end_snaps_to_next_step {
                    Self::next_step_and_pattern_and_song_pattern(false, self.active_step, self.active_song_pattern, num)
                } else if is_end_in_prev_step || end_snaps_to_next_step {
                    (self.active_step, self.active_song_pattern)
                } else {
                    self.just_recorded_over_next_step = true;
                    Self::next_step_and_pattern_and_song_pattern(true, self.active_step, self.active_song_pattern, num)
                };
                self.set_pattern_step_events(step, song_pattern, None, Some(true), None);
            },
        }
    }

    /// Records a played note on the displayed instrument with its non-zero parameters,
    /// remembers the press frame and puts the note in the note clipboard; returns the
    /// instrument's parameters.
    pub fn record_press(&mut self, note: u8) -> (r: (i8, i8))
        requires
            old(self)@.wf(),
            note != 0,
            old(self)@.recording && old(self)@.playing ==> old(self)@.song.frames_per_step > 0,
        ensures
            r == old(self)@.displayed_params(),
            final(self)@ == spec_record_press(old(self)@, note),
            final(self)@.wf(),
    {
        let (p0, p1) = self.displayed_instrument_params();
        let f0 = if p0 != 0 { Some(p0) } else { None };
        let f1 = if p1 != 0 { Some(p1) } else { None };
        self.record_key_event(KeyEvent::Press, Some(note), Some((f0, f1)));
        self.last_press_frame = Some(self.active_frame_or_zero());
        self.default_note_clipboard.note = note;
        (p0, p1)
    }

    /// Records the release of a played note on the displayed instrument.
    pub fn record_release(&mut self, note: u8)
        requires
            old(self)@.wf(),
            old(self)@.recording && old(self)@.playing ==> old(self)@.song.frames_per_step > 0
                && release_placeable(old(self)@),
        ensures
            final(self)@ == spec_record_key_event(old(self)@, KeyEvent::Release, None, None),
            final(self)@.wf(),
    {
        self.record_key_event(KeyEvent::Release, None, None);
    }
}

impl Sequencer {
    /// Reads a song from its markdown text and makes it the current song (see
    /// `set_song`); returns the name of the song's instruments file. A song whose list
    /// names a pattern above 64 is refused: displaying or playing that position would
    /// reach a pattern that does not exist. On error the sequencer is unchanged.
    pub fn load_str(&mut self, markdown: &str) -> (r: Result<String, SongParseError>)
        requires
            old(self)@.unloaded_wf(),
        ensures
            match spec_song_from_events(markdown@, spec_markdown_events(markdown@)) {
                Ok(song) => if plays_existing_patterns(song) {
                    &&& r matches Ok(f) && f@ == song.instruments_file
                    &&& final(self)@ == spec_display_song_pattern(
                        SequencerView { song, has_stub_pattern: false, active_song_pattern: 0, ..old(self)@ },
                        0,
                    )
                    &&& final(self)@.wf()
                } else {
                    &&& r matches Err(SongParseError::SongPlaysMissingPattern)
                    &&& final(self)@ == old(self)@
                },
                Err(e) => r matches Err(x) && x@ == e && final(self)@ == old(self)@,
            },
    {
        let song = parse_markdown_song(markdown)?;
        if !song.plays_existing_patterns() {
            return Err(SongParseError::SongPlaysMissingPattern);
        }
        let instruments_file = song.instruments_file.clone();
        self.set_song(song);
        Ok(instruments_file)
    }
}

impl Sequencer {
    /// The current song.
    pub fn song(&self) -> (r: &SequencerSong)
        ensures
            r@ == self@.song,
    {
        &self.song
    }

    /// A copy of the sequencer.
    pub fn duplicate(&self) -> (r: Sequencer)
        ensures
            r@ == self@,
    {
        let selection_clipboard = match &self.selection_clipboard {
            SelectionClipboard::Empty => SelectionClipboard::Empty,
            SelectionClipboard::InstrumentParams(v) => SelectionClipboard::InstrumentParams(copy_vec(v)),
            SelectionClipboard::WholeSteps(v) => SelectionClipboard::WholeSteps(copy_vec(v)),
        };
        let r = Sequencer {
            song: self.song.duplicate(),
            active_frame: self.active_frame,
            active_step: self.active_step,
            active_song_pattern: self.active_song_pattern,
            displayed_instrument: self.displayed_instrument,
            displayed_song_pattern: self.displayed_song_pattern,
            playing: self.playing,
            play_song_mode: self.play_song_mode,
            recording: self.recording,
            erasing: self.erasing,
            has_stub_pattern: self.has_stub_pattern,
            next_cycle_song_pattern_start_can_have_new: self.next_cycle_song_pattern_start_can_have_new,
            received_instruments_ids_after_load: self.received_instruments_ids_after_load,
            last_press_frame: self.last_press_frame,
            just_recorded_over_next_step: self.just_recorded_over_next_step,
            muted_instruments: self.muted_instruments,
            synth_instrument_ids: copy_strings(&self.synth_instrument_ids),
            instrument_params: copy_vec(&self.instrument_params),
            default_note_clipboard: NoteClipboard {
                note: self.default_note_clipboard.note,
                release: self.default_note_clipboard.release,
            },
            default_song_pattern_clipboard: self.default_song_pattern_clipboard,
            selection_clipboard,
        };
        assert(r@.muted_instruments =~= self@.muted_instruments);
        r
    }

    /// Whether the loaded instruments declared their identifiers since the song was
    /// loaded: playback can then start.
    pub fn received_instruments_ids_after_load(&self) -> (r: bool)
        ensures
            r == self@.received_instruments_ids_after_load,
    {
        self.received_instruments_ids_after_load
    }

    /// The instrument whose steps are displayed and edited.
    pub fn displayed_instrument(&self) -> (r: u8)
        ensures
            r == self@.displayed_instrument,
    {
        self.displayed_instrument
    }

    /// Names the instruments file that the song refers to, as saving under a new name does.
    pub fn set_instruments_file(&mut self, file_name: String)
        ensures
            final(self)@ == (SequencerView {
                song: SongView { instruments_file: file_name@, ..old(self)@.song },
                ..old(self)@
            }),
    {
        self.song.instruments_file = file_name;
    }

    /// The markdown text that saving the song writes (see `song_text`).
    pub fn song_markdown(&self) -> (r: String)
        requires
            song_wf(self@.song),
            writable(self@.song),
        ensures
            r@ == song_text(self@.song),
    {
        song_to_markdown(&self.song)
    }
}

/// A step that presses no note sends the parameters it sets: each `SetParam` event
/// carries the number of the step field it comes from and that field's value, and each
/// parameter the step sets is sent, parameter 0 first.
pub proof fn lemma_step_param_events(slot: u8, s: InstrumentStep)
    requires
        s.note == 0,
    ensures
        ({
            let ev = step_press_events(slot, s);
            &&& ev.len() == (if s.param0 is Some { 1int } else { 0 }) + (if s.param1 is Some { 1int } else { 0 })
            &&& forall|i: int|
                0 <= i < ev.len() ==> ((#[trigger] ev[i]).1 matches StepEvent::SetParam(n, x) && n < 2 && param_of(s, n) == Some(x))
            &&& forall|i: int| 0 <= i < ev.len() ==> (#[trigger] ev[i]).0 == slot
            &&& s.param0 matches Some(x) ==> ev[0] == (slot, StepEvent::SetParam(0, x))
            &&& s.param1 matches Some(x) ==> ev[ev.len() - 1] == (slot, StepEvent::SetParam(1, x))
        }),
{
}

/// A step that presses a note sends one press of that note, on its instrument, with
/// each parameter the step sets (the default value for the others), parameter 0 first.
pub proof fn lemma_step_press_event(slot: u8, s: InstrumentStep)
    requires
        s.note != 0,
    ensures
        ({
            let ev = step_press_events(slot, s);
            &&& ev.len() == 1
            &&& ev[0].0 == slot
            &&& ev[0].1 matches StepEvent::Press(note, p0, p1) && note == s.note
                && (param_of(s, 0) matches Some(x) ==> p0 == x) && (param_of(s, 0) is None ==> p0 == DEFAULT_PARAM_VAL)
                && (param_of(s, 1) matches Some(x) ==> p1 == x) && (param_of(s, 1) is None ==> p1 == DEFAULT_PARAM_VAL)
        }),
{
}

/// A press recorded during playback lands on the playing step when it comes early in
/// the step (before `frames_per_step / 2 + 1` frames into it), and otherwise on the next
/// step, which is then marked as recorded over.
pub proof fn lemma_press_snaps_to_nearest_step(v: SequencerView, note: u8, params: Option<(Option<i8>, Option<i8>)>)
    requires
        v.wf(),
        v.recording,
        v.playing,
        v.song.frames_per_step > 0,
    ensures
        ({
            let fps = v.song.frames_per_step as int;
            let offset = v.frame_or_zero() % fps;
            let n = v.spec_num_song_patterns();
            let r = spec_record_key_event(v, KeyEvent::Press, Some(note), params);
            &&& offset < fps / 2 + 1 ==> r == spec_set_pattern_step_events(
                v,
                v.active_step as int,
                v.active_song_pattern as int,
                Some(Some(note)),
                None,
                params,
            )
            &&& offset >= fps / 2 + 1 ==> r == spec_set_pattern_step_events(
                SequencerView { just_recorded_over_next_step: true, ..v },
                (v.active_step + 1) % 16,
                if v.active_step == 15 { (v.active_song_pattern + 1) % n } else { v.active_song_pattern as int },
                Some(Some(note)),
                None,
                params,
            )
        }),
{
    let n = v.spec_num_song_patterns();
    assert(n > 0);
    if v.active_step == 15 {
        assert((v.active_step + 16 + 1) % 16 == 0);
        assert((v.active_song_pattern + n + 1) % n == (v.active_song_pattern + 1) % n) by {
            vstd::arithmetic::div_mod::lemma_mod_add_multiples_vanish(v.active_song_pattern + 1, n);
        }
    } else {
        assert((v.active_step + 16 + 1) % 16 == v.active_step + 1);
    }
}

/// A large parameter change moves the value by 16, wrapping around the range of `i8`:
/// forward adds 16 (modulo 256) and backward takes it back.
pub proof fn lemma_large_param_step(v: i8)
    ensures
        (cycled_param(v, Some(true), true) as int - v as int) % 256 == 16,
        (cycled_param(v, Some(false), true) as int - v as int) % 256 == 240,
        cycled_param(cycled_param(v, Some(true), true), Some(false), true) == v,
        cycled_param(cycled_param(v, Some(false), true), Some(true), true) == v,
{
}

} // verus!
