use vstd::prelude::*;
use crate::consts::{NUM_INSTRUMENTS, NUM_INSTRUMENT_COLS, NUM_INSTRUMENT_PARAMS};
use crate::markdown::str_slice;
use crate::text::chars_of;

verus! {

/// The largest number of instruments that a column of the instrument grid holds.
pub const MAX_INSTRUMENTS_PER_COL: usize = 16;

/// What the instruments script answers when it registers an instrument that is refused.
pub const INVALID_INSTRUMENT: i32 = 255;

/// A note that an instrument plays: since which frame, and for how many frames its
/// frame function still runs after the release, once released.
#[derive(Clone, Copy, Debug, PartialEq, Eq, Structural)]
pub struct PressedNote {
    pub note: u8,
    pub pressed_frame: usize,
    pub extended_frames: Option<usize>,
}

/// The functions that the instruments script registered for an instrument, by their index
/// in the script's function table (0 stands for none), and the note it plays.
#[derive(Clone, Copy, Debug, PartialEq, Eq, Structural)]
pub struct InstrumentState {
    pub press_function: u32,
    pub release_function: u32,
    pub frame_function: u32,
    /// The functions that set parameter 0 and parameter 1.
    pub set_param0_function: u32,
    pub set_param1_function: u32,
    pub frames_after_release: i32,
    pub pressed_note: Option<PressedNote>,
}

impl InstrumentState {
    pub open spec fn spec_new() -> InstrumentState {
        InstrumentState {
            press_function: 0,
            release_function: 0,
            frame_function: 0,
            set_param0_function: 0,
            set_param1_function: 0,
            frames_after_release: 0,
            pressed_note: None,
        }
    }
}

/// A parameter that the instruments script defines for an instrument.
pub struct InstrumentParamDef {
    /// The parameter's short name: the first two bytes of the name the script gave.
    pub name: String,
    pub default: i8,
    pub min: i8,
    pub max: i8,
}

/// A parameter definition as plain values.
pub struct ParamDefView {
    pub name: Seq<char>,
    pub default: i8,
    pub min: i8,
    pub max: i8,
}

impl View for InstrumentParamDef {
    type V = ParamDefView;

    open spec fn view(&self) -> ParamDefView {
        ParamDefView { name: self.name@, default: self.default, min: self.min, max: self.max }
    }
}

/// A call of a function of the instruments script that the caller is to make.
#[derive(Clone, Copy, Debug, PartialEq, Eq, Structural)]
pub enum ScriptCall {
    /// A press: the function, the note's frequency, the note and both parameters.
    Press(u32, i32, i32, i32, i32),
    /// A release: the function, the note's frequency, the note and the frames since the press.
    Release(u32, i32, i32, i32),
    /// A frame of a pressed note: the function, the frequency, the note and the frames since the press.
    Frame(u32, i32, i32, i32),
    /// A parameter change: the function and the value.
    SetParam(u32, i32),
}

/// The instruments that the instruments script declares while it loads, and their state.
pub struct SynthScript {
    /// The identifier of each instrument slot; empty while no script is loading.
    ids: Vec<String>,
    /// The parameter definitions of each instrument slot; empty while no script is loading.
    params: Vec<Vec<Option<InstrumentParamDef>>>,
    /// The instruments of each column of the grid, in the order they were declared.
    columns: Vec<Vec<InstrumentState>>,
}

/// The instruments of a script as plain values.
pub struct SynthScriptView {
    pub ids: Seq<Seq<char>>,
    pub params: Seq<Seq<Option<ParamDefView>>>,
    pub columns: Seq<Seq<InstrumentState>>,
}

pub open spec fn param_row_view(row: Seq<Option<InstrumentParamDef>>) -> Seq<Option<ParamDefView>> {
    Seq::new(row.len(), |j: int| match row[j] {
        Some(d) => Some(d@),
        None => None,
    })
}

impl View for SynthScript {
    type V = SynthScriptView;

    closed spec fn view(&self) -> SynthScriptView {
        SynthScriptView {
            ids: Seq::new(self.ids@.len(), |i: int| self.ids@[i]@),
            params: Seq::new(self.params@.len(), |i: int| param_row_view(self.params@[i]@)),
            columns: Seq::new(self.columns@.len(), |i: int| self.columns@[i]@),
        }
    }
}

impl SynthScriptView {
    /// The registry is sound: four columns of at most sixteen instruments, and while a
    /// script loads, an identifier and two parameter definitions per slot.
    pub open spec fn wf(self) -> bool {
        &&& self.columns.len() == NUM_INSTRUMENT_COLS
        &&& forall|c: int| 0 <= c < NUM_INSTRUMENT_COLS ==> #[trigger] self.columns[c].len() <= MAX_INSTRUMENTS_PER_COL
        &&& self.ids.len() == 0 || self.ids.len() == NUM_INSTRUMENTS
        &&& self.params.len() == self.ids.len()
        &&& forall|i: int| 0 <= i < self.params.len() ==> #[trigger] self.params[i].len() == NUM_INSTRUMENT_PARAMS
        &&& forall|c: int, r: int|
            0 <= c < self.columns.len() && 0 <= r < self.columns[c].len() ==> state_wf(#[trigger] self.columns[c][r])
    }

    /// Whether a script is loading, the only time it may declare instruments.
    pub open spec fn loading(self) -> bool {
        self.ids.len() == NUM_INSTRUMENTS
    }

    /// The state of the instrument in slot `index`: column in the two low bits, row above.
    pub open spec fn slot_state(self, index: u8) -> Option<InstrumentState> {
        let col = index % 4;
        let row = index / 4;
        if row < self.columns[col as int].len() {
            Some(self.columns[col as int][row as int])
        } else {
            None
        }
    }

    /// The registry with the state of the instrument in slot `index` replaced.
    pub open spec fn with_slot_state(self, index: u8, st: InstrumentState) -> SynthScriptView {
        let col = (index % 4) as int;
        let row = (index / 4) as int;
        SynthScriptView {
            columns: self.columns.update(col, self.columns[col].update(row, st)),
            ..self
        }
    }
}

/// A pressed note has a note number with a frequency, and a countdown that has not run out.
pub open spec fn state_wf(st: InstrumentState) -> bool {
    st.pressed_note matches Some(pn) ==> pn.note < 128 && pn.extended_frames != Some(0usize)
}

/// The registry with no instrument and no script loading.
pub open spec fn spec_empty_script() -> SynthScriptView {
    SynthScriptView {
        ids: Seq::empty(),
        params: Seq::empty(),
        columns: Seq::new(NUM_INSTRUMENT_COLS as nat, |c: int| Seq::<InstrumentState>::empty()),
    }
}

/// The registry when a script starts loading: no instrument, and empty identifiers and
/// parameters for every slot.
pub open spec fn spec_loading_script() -> SynthScriptView {
    SynthScriptView {
        ids: Seq::new(NUM_INSTRUMENTS as nat, |i: int| Seq::<char>::empty()),
        params: Seq::new(NUM_INSTRUMENTS as nat, |i: int| seq![None::<ParamDefView>, None::<ParamDefView>]),
        columns: Seq::new(NUM_INSTRUMENT_COLS as nat, |c: int| Seq::<InstrumentState>::empty()),
    }
}

/// Why an instrument declaration is refused, if it is: an empty identifier, no script
/// loading, an identifier already declared, a column outside the grid, or a full column.
pub open spec fn instrument_refused(v: SynthScriptView, id: Seq<char>, col: i32) -> bool {
    ||| id.len() == 0
    ||| v.ids.len() == 0
    ||| v.ids.contains(id)
    ||| !(0 <= col < NUM_INSTRUMENT_COLS)
    ||| v.columns[col as int].len() >= MAX_INSTRUMENTS_PER_COL
}

/// The slot of the next instrument of column `col`.
pub open spec fn next_slot(v: SynthScriptView, col: int) -> int {
    v.columns[col].len() * 4 + col
}

/// The registry after an instrument declaration that is not refused: the instrument joins
/// its column with its functions, and its slot gets its identifier.
pub open spec fn spec_set_instrument_at_column(
    v: SynthScriptView,
    id: Seq<char>,
    col: int,
    frames_after_release: i32,
    press: u32,
    release: u32,
    frame: u32,
) -> SynthScriptView {
    let st = InstrumentState {
        press_function: press,
        release_function: release,
        frame_function: frame,
        frames_after_release,
        ..InstrumentState::spec_new()
    };
    SynthScriptView {
        ids: v.ids.update(next_slot(v, col), id),
        columns: v.columns.update(col, v.columns[col].push(st)),
        ..v
    }
}

/// Whether a parameter definition is ignored: an empty name, or an instrument or
/// parameter number out of range.
pub open spec fn param_ignored(name: Seq<char>, instrument: i32, param_num: i32) -> bool {
    ||| name.len() == 0
    ||| !(0 <= instrument < NUM_INSTRUMENTS)
    ||| !(0 <= param_num < NUM_INSTRUMENT_PARAMS)
}

/// The registry after a parameter definition that is not ignored: the slot's parameter
/// gets the definition (its name cut to two bytes, its values truncated to `i8`), and the
/// instrument in that slot, if declared, gets the function that sets it.
pub open spec fn spec_define_param(
    v: SynthScriptView,
    instrument: i32,
    param_num: i32,
    short_name: Seq<char>,
    default: i32,
    min: i32,
    max: i32,
    set_param: u32,
) -> SynthScriptView {
    let def = ParamDefView { name: short_name, default: default as i8, min: min as i8, max: max as i8 };
    let v1 = SynthScriptView {
        params: v.params.update(instrument as int, v.params[instrument as int].update(param_num as int, Some(def))),
        ..v
    };
    match v1.slot_state(instrument as u8) {
        Some(st) => v1.with_slot_state(
            instrument as u8,
            if param_num == 0 {
                InstrumentState { set_param0_function: set_param, ..st }
            } else {
                InstrumentState { set_param1_function: set_param, ..st }
            },
        ),
        None => v1,
    }
}

/// The registry after a press of the instrument in slot `instrument`, if it is declared,
/// and the call of its press function, if it has one.
pub open spec fn spec_press(v: SynthScriptView, frame: usize, instrument: u8, note: u8, p0: i8, p1: i8) -> (SynthScriptView, Option<ScriptCall>) {
    match v.slot_state(instrument) {
        None => (v, None),
        Some(st) => (
            v.with_slot_state(
                instrument,
                InstrumentState { pressed_note: Some(PressedNote { note, pressed_frame: frame, extended_frames: None }), ..st },
            ),
            if st.press_function != 0 {
                Some(ScriptCall::Press(st.press_function, note_frequencies()[note as int] as i32, note as i32, p0 as i32, p1 as i32))
            } else {
                None
            },
        ),
    }
}

/// The registry after a release of the instrument in slot `instrument`, and the call of
/// its release function, if it plays a note and has one. The note keeps its frame
/// function running for the instrument's frames after release, if any.
pub open spec fn spec_release(v: SynthScriptView, frame: usize, instrument: u8) -> (SynthScriptView, Option<ScriptCall>) {
    match v.slot_state(instrument) {
        Some(st) => match st.pressed_note {
            Some(pn) => (
                v.with_slot_state(
                    instrument,
                    InstrumentState {
                        pressed_note: if st.frames_after_release > 0 {
                            Some(PressedNote { extended_frames: Some(st.frames_after_release as usize), ..pn })
                        } else {
                            None
                        },
                        ..st
                    },
                ),
                if st.release_function != 0 {
                    Some(ScriptCall::Release(
                        st.release_function,
                        note_frequencies()[pn.note as int] as i32,
                        pn.note as i32,
                        (frame - pn.pressed_frame) as i32,
                    ))
                } else {
                    None
                },
            ),
            None => (v, None),
        },
        None => (v, None),
    }
}

/// The call that sets parameter `param_num` of the instrument in slot `instrument` to
/// `val`, if it is declared with a function for that parameter.
pub open spec fn spec_param_call(v: SynthScriptView, instrument: u8, param_num: u8, val: i8) -> Option<ScriptCall> {
    match v.slot_state(instrument) {
        Some(st) => {
            let f = if param_num == 0 { st.set_param0_function } else { st.set_param1_function };
            if f != 0 {
                Some(ScriptCall::SetParam(f, val as i32))
            } else {
                None
            }
        },
        None => None,
    }
}

/// The registry with every instrument's note let go.
pub open spec fn spec_release_all(v: SynthScriptView) -> SynthScriptView {
    SynthScriptView {
        columns: Seq::new(
            v.columns.len(),
            |c: int| Seq::new(v.columns[c].len(), |r: int| InstrumentState { pressed_note: None, ..v.columns[c][r] }),
        ),
        ..v
    }
}

/// Whether a string is one of the identifiers in `ids`.
fn contains_id(ids: &Vec<String>, id: &str) -> (r: bool)
    ensures
        r == Seq::new(ids@.len(), |i: int| ids@[i]@).contains(id@),
{
    let target = chars_of(id);
    let ghost s = Seq::new(ids@.len(), |i: int| ids@[i]@);
    let mut i: usize = 0;
    while i < ids.len()
        invariant
            i <= ids@.len(),
            s == Seq::new(ids@.len(), |i: int| ids@[i]@),
            target@ == id@,
            forall|j: int| 0 <= j < i ==> s[j] != id@,
        decreases ids@.len() - i,
    {
        let c = chars_of(ids[i].as_str());
        let mut same = c.len() == target.len();
        let mut k: usize = 0;
        while same && k < c.len()
            invariant
                c@.len() == target@.len() || !same,
                k <= c@.len(),
                same ==> forall|q: int| 0 <= q < k ==> c@[q] == target@[q],
                !same ==> c@ != target@,
            decreases c@.len() - k,
        {
            if c[k] != target[k] {
                same = false;
            }
            k = k + 1;
        }
        if same {
            assert(c@ =~= target@);
            assert(s[i as int] == id@);
            return true;
        }
        i = i + 1;
    }
    false
}

/// The frequency of each MIDI note, times 256 (eight bits of fraction), from octave -1
/// on; instruments convert them to the sound chip's frequency registers.
pub open spec fn note_frequencies() -> Seq<u32> {
    seq![
        2094, 2217, 2350, 2488, 2637, 2793, 2959, 3136, 3323, 3520, 3730, 3950,
        4186, 4434, 4698, 4979, 5274, 5588, 5919, 6272, 6646, 7040, 7460, 7903,
        8371, 8870, 9398, 9956, 10547, 11174, 11840, 12544, 13289, 14080, 14917, 15806,
        16745, 17741, 18796, 19912, 21097, 22351, 23680, 25088, 26580, 28160, 29834, 31608,
        33487, 35479, 37588, 39823, 42191, 44700, 47360, 50176, 53158, 56320, 59668, 63217,
        66977, 70958, 75177, 79649, 84385, 89403, 94718, 100352, 106317, 112640, 119337, 126433,
        133952, 141919, 150356, 159296, 168770, 178806, 189438, 200702, 212636, 225280, 238676, 252869,
        267904, 283835, 300713, 318594, 337538, 357609, 378875, 401403, 425272, 450560, 477353, 505736,
        535808, 567670, 601426, 637189, 675077, 715220, 757750, 802806, 850545, 901120, 954703, 1011474,
        1071618, 1135340, 1202852, 1274376, 1350154, 1430438, 1515497, 1605614, 1701089, 1802240, 1909407, 2022945,
        2143237, 2270679, 2405701, 2548751, 2700308, 2860877, 3030994, 3211226,
    ]
}

/// The frequency of a MIDI note, times 256, as the instruments script receives it.
pub fn note_to_freq(note: u8) -> (r: i32)
    requires
        note < 128,
    ensures
        r == note_frequencies()[note as int],
{
    let table: [u32; 128] = [
        2094, 2217, 2350, 2488, 2637, 2793, 2959, 3136, 3323, 3520, 3730, 3950,
        4186, 4434, 4698, 4979, 5274, 5588, 5919, 6272, 6646, 7040, 7460, 7903,
        8371, 8870, 9398, 9956, 10547, 11174, 11840, 12544, 13289, 14080, 14917, 15806,
        16745, 17741, 18796, 19912, 21097, 22351, 23680, 25088, 26580, 28160, 29834, 31608,
        33487, 35479, 37588, 39823, 42191, 44700, 47360, 50176, 53158, 56320, 59668, 63217,
        66977, 70958, 75177, 79649, 84385, 89403, 94718, 100352, 106317, 112640, 119337, 126433,
        133952, 141919, 150356, 159296, 168770, 178806, 189438, 200702, 212636, 225280, 238676, 252869,
        267904, 283835, 300713, 318594, 337538, 357609, 378875, 401403, 425272, 450560, 477353, 505736,
        535808, 567670, 601426, 637189, 675077, 715220, 757750, 802806, 850545, 901120, 954703, 1011474,
        1071618, 1135340, 1202852, 1274376, 1350154, 1430438, 1515497, 1605614, 1701089, 1802240, 1909407, 2022945,
        2143237, 2270679, 2405701, 2548751, 2700308, 2860877, 3030994, 3211226,
    ];
    assert(table@ =~= note_frequencies());
    table[note as usize] as i32
}

/// The state of an instrument after one frame, and the frame function call it asks for:
/// a pressed instrument with a frame function is called, and a released one counts down
/// its remaining frames, letting go of the note at zero.
pub open spec fn advance_state(st: InstrumentState, frame: usize) -> (InstrumentState, Seq<ScriptCall>) {
    match st.pressed_note {
        None => (st, Seq::empty()),
        Some(pn) => if st.frame_function != 0 {
            let call = ScriptCall::Frame(
                st.frame_function,
                note_frequencies()[pn.note as int] as i32,
                pn.note as i32,
                (frame - pn.pressed_frame) as i32,
            );
            let st2 = match pn.extended_frames {
                Some(rem) => if rem - 1 == 0 {
                    InstrumentState { pressed_note: None, ..st }
                } else {
                    InstrumentState {
                        pressed_note: Some(PressedNote { extended_frames: Some((rem - 1) as usize), ..pn }),
                        ..st
                    }
                },
                None => st,
            };
            (st2, seq![call])
        } else {
            (st, Seq::empty())
        },
    }
}

/// The calls of the first `n` instruments of a column after one frame.
pub open spec fn column_calls(column: Seq<InstrumentState>, frame: usize, n: int) -> Seq<ScriptCall>
    decreases n,
{
    if n <= 0 {
        Seq::empty()
    } else {
        column_calls(column, frame, n - 1) + advance_state(column[n - 1], frame).1
    }
}

/// The calls of the first `c` columns after one frame.
pub open spec fn frame_calls(columns: Seq<Seq<InstrumentState>>, frame: usize, c: int) -> Seq<ScriptCall>
    decreases c,
{
    if c <= 0 {
        Seq::empty()
    } else {
        frame_calls(columns, frame, c - 1) + column_calls(columns[c - 1], frame, columns[c - 1].len() as int)
    }
}

/// The instruments after one frame.
pub open spec fn advanced_columns(columns: Seq<Seq<InstrumentState>>, frame: usize) -> Seq<Seq<InstrumentState>> {
    Seq::new(columns.len(), |c: int| Seq::new(columns[c].len(), |r: int| advance_state(columns[c][r], frame).0))
}

/// Every pressed note was pressed no later than `frame`.
pub open spec fn pressed_before(columns: Seq<Seq<InstrumentState>>, frame: usize) -> bool {
    forall|c: int, r: int|
        0 <= c < columns.len() && 0 <= r < columns[c].len() ==> ((#[trigger] columns[c][r]).pressed_note matches Some(pn)
            ==> pn.pressed_frame <= frame)
}

/// Advances the instruments of a column by one frame, adding the calls to make.
fn advance_column(column: &mut Vec<InstrumentState>, frame: usize, calls: &mut Vec<ScriptCall>)
    requires
        forall|r: int| 0 <= r < old(column)@.len() ==> state_wf(#[trigger] old(column)@[r]),
        forall|r: int|
            0 <= r < old(column)@.len() ==> ((#[trigger] old(column)@[r]).pressed_note matches Some(pn) ==> pn.pressed_frame
                <= frame),
    ensures
        final(column)@ == Seq::new(old(column)@.len(), |r: int| advance_state(old(column)@[r], frame).0),
        final(calls)@ == old(calls)@ + column_calls(old(column)@, frame, old(column)@.len() as int),
        forall|r: int| 0 <= r < final(column)@.len() ==> state_wf(#[trigger] final(column)@[r]),
{
    let ghost old_col = column@;
    let mut i: usize = 0;
    while i < column.len()
        invariant
            i <= old_col.len(),
            column@.len() == old_col.len(),
            forall|r: int| 0 <= r < old_col.len() ==> state_wf(#[trigger] old_col[r]),
            forall|r: int|
                0 <= r < old_col.len() ==> ((#[trigger] old_col[r]).pressed_note matches Some(pn) ==> pn.pressed_frame <= frame),
            forall|r: int| 0 <= r < i ==> #[trigger] column@[r] == advance_state(old_col[r], frame).0,
            forall|r: int| i <= r < old_col.len() ==> #[trigger] column@[r] == old_col[r],
            forall|r: int| 0 <= r < i ==> state_wf(#[trigger] column@[r]),
            calls@ == old(calls)@ + column_calls(old_col, frame, i as int),
        decreases old_col.len() - i,
    {
        let st = column[i];
        let mut nst = st;
        if let Some(pn) = st.pressed_note {
            if st.frame_function != 0 {
                calls.push(ScriptCall::Frame(
                    st.frame_function,
                    note_to_freq(pn.note),
                    pn.note as i32,
                    (frame - pn.pressed_frame) as i32,
                ));
                if let Some(rem) = pn.extended_frames {
                    if rem - 1 == 0 {
                        nst.pressed_note = None;
                    } else {
                        nst.pressed_note = Some(PressedNote { extended_frames: Some(rem - 1), ..pn });
                    }
                }
            }
        }
        assert(nst == advance_state(old_col[i as int], frame).0);
        column.set(i, nst);
        i = i + 1;
    }
    assert(column@ =~= Seq::new(old_col.len(), |r: int| advance_state(old_col[r], frame).0));
}

/// Advances the instruments of every column by one frame, adding the calls to make.
fn advance_columns(columns: &mut Vec<Vec<InstrumentState>>, frame: usize, calls: &mut Vec<ScriptCall>)
    requires
        forall|c: int, r: int|
            0 <= c < old(columns)@.len() && 0 <= r < old(columns)@[c]@.len() ==> state_wf(#[trigger] old(columns)@[c]@[r]),
        forall|c: int, r: int|
            0 <= c < old(columns)@.len() && 0 <= r < old(columns)@[c]@.len() ==> ((#[trigger] old(columns)@[c]@[r]).pressed_note matches Some(pn)
                ==> pn.pressed_frame <= frame),
    ensures
        final(columns)@.len() == old(columns)@.len(),
        forall|c: int| 0 <= c < old(columns)@.len() ==> (#[trigger] final(columns)@[c])@ == Seq::new(
            old(columns)@[c]@.len(),
            |r: int| advance_state(old(columns)@[c]@[r], frame).0,
        ),
        final(calls)@ == old(calls)@ + frame_calls(
            Seq::new(old(columns)@.len(), |c: int| old(columns)@[c]@),
            frame,
            old(columns)@.len() as int,
        ),
{
    let ghost old_cols = columns@;
    let ghost cv = Seq::new(old_cols.len(), |c: int| old_cols[c]@);
    let mut c: usize = 0;
    while c < columns.len()
        invariant
            c <= old_cols.len(),
            columns@.len() == old_cols.len(),
            cv == Seq::new(old_cols.len(), |c: int| old_cols[c]@),
            forall|q: int, r: int| 0 <= q < old_cols.len() && 0 <= r < old_cols[q]@.len() ==> state_wf(#[trigger] old_cols[q]@[r]),
            forall|q: int, r: int|
                0 <= q < old_cols.len() && 0 <= r < old_cols[q]@.len() ==> ((#[trigger] old_cols[q]@[r]).pressed_note matches Some(pn)
                    ==> pn.pressed_frame <= frame),
            forall|q: int| 0 <= q < c ==> (#[trigger] columns@[q])@ == Seq::new(
                old_cols[q]@.len(),
                |r: int| advance_state(old_cols[q]@[r], frame).0,
            ),
            forall|q: int| c <= q < old_cols.len() ==> #[trigger] columns@[q] == old_cols[q],
            calls@ == old(calls)@ + frame_calls(cv, frame, c as int),
        decreases old_cols.len() - c,
    {
        proof {
            assert forall|r: int| 0 <= r < columns@[c as int]@.len() implies state_wf(#[trigger] columns@[c as int]@[r]) by {
                assert(columns@[c as int]@[r] == old_cols[c as int]@[r]);
            }
        }
        advance_column(&mut columns[c], frame, calls);
        assert(cv[c as int] == old_cols[c as int]@);
        c = c + 1;
    }
}

impl SynthScript {
    /// A registry with no instrument and no script loading.
    pub fn new() -> (s: SynthScript)
        ensures
            s@ == spec_empty_script(),
            s@.wf(),
    {
        let mut columns: Vec<Vec<InstrumentState>> = Vec::new();
        let mut c: usize = 0;
        while c < NUM_INSTRUMENT_COLS
            invariant
                c <= NUM_INSTRUMENT_COLS,
                columns@.len() == c,
                forall|q: int| 0 <= q < c ==> (#[trigger] columns@[q])@.len() == 0,
            decreases NUM_INSTRUMENT_COLS - c,
        {
            columns.push(Vec::new());
            c = c + 1;
        }
        let s = SynthScript { ids: Vec::new(), params: Vec::new(), columns };
        assert(s@.ids =~= Seq::<Seq<char>>::empty());
        assert(s@.params =~= Seq::<Seq<Option<ParamDefView>>>::empty());
        assert forall|q: int| 0 <= q < NUM_INSTRUMENT_COLS implies #[trigger] s@.columns[q] == spec_empty_script().columns[q] by {
            assert(s@.columns[q] =~= Seq::<InstrumentState>::empty());
        }
        assert(s@.columns =~= spec_empty_script().columns);
        s
    }

    /// Forgets the instruments, and starts a script's loading: every slot gets an empty
    /// identifier and no parameter definitions.
    pub fn begin_loading(&mut self)
        ensures
            final(self)@ == spec_loading_script(),
            final(self)@.wf(),
    {
        let fresh = SynthScript::new();
        self.columns = fresh.columns;
        let mut ids: Vec<String> = Vec::new();
        let mut params: Vec<Vec<Option<InstrumentParamDef>>> = Vec::new();
        let mut i: usize = 0;
        while i < NUM_INSTRUMENTS
            invariant
                i <= NUM_INSTRUMENTS,
                ids@.len() == i,
                params@.len() == i,
                forall|q: int| 0 <= q < i ==> (#[trigger] ids@[q])@ == Seq::<char>::empty(),
                forall|q: int| 0 <= q < i ==> param_row_view((#[trigger] params@[q])@) == seq![None::<ParamDefView>, None::<ParamDefView>],
            decreases NUM_INSTRUMENTS - i,
        {
            ids.push(String::new());
            let mut row: Vec<Option<InstrumentParamDef>> = Vec::new();
            row.push(None);
            row.push(None);
            assert(param_row_view(row@) =~= seq![None::<ParamDefView>, None::<ParamDefView>]);
            params.push(row);
            i = i + 1;
        }
        self.ids = ids;
        self.params = params;
        assert(self@.ids =~= spec_loading_script().ids);
        assert(self@.params =~= spec_loading_script().params);
        assert(self@.columns =~= spec_loading_script().columns);
    }

    /// Hands over the identifiers and parameter definitions declared while loading, which
    /// ends the loading.
    pub fn take_instrument_def(&mut self) -> (r: (Vec<String>, Vec<Vec<Option<InstrumentParamDef>>>))
        requires
            old(self)@.wf(),
        ensures
            Seq::new(r.0@.len(), |i: int| r.0@[i]@) == old(self)@.ids,
            Seq::new(r.1@.len(), |i: int| param_row_view(r.1@[i]@)) == old(self)@.params,
            final(self)@ == (SynthScriptView { ids: Seq::empty(), params: Seq::empty(), ..old(self)@ }),
            final(self)@.wf(),
    {
        let mut ids: Vec<String> = Vec::new();
        let mut params: Vec<Vec<Option<InstrumentParamDef>>> = Vec::new();
        std::mem::swap(&mut ids, &mut self.ids);
        std::mem::swap(&mut params, &mut self.params);
        assert(self@.ids =~= Seq::<Seq<char>>::empty());
        assert(self@.params =~= Seq::<Seq<Option<ParamDefView>>>::empty());
        (ids, params)
    }

    /// Declares an instrument in column `col` of the grid; returns its slot, or 255 when
    /// the declaration is refused (see `instrument_refused`).
    pub fn set_instrument_at_column(
        &mut self,
        id: &str,
        col: i32,
        frames_after_release: i32,
        press: u32,
        release: u32,
        frame: u32,
    ) -> (r: i32)
        requires
            old(self)@.wf(),
        ensures
            instrument_refused(old(self)@, id@, col) ==> r == INVALID_INSTRUMENT && final(self)@ == old(self)@,
            !instrument_refused(old(self)@, id@, col) ==> {
                &&& r == next_slot(old(self)@, col as int)
                &&& final(self)@ == spec_set_instrument_at_column(
                    old(self)@,
                    id@,
                    col as int,
                    frames_after_release,
                    press,
                    release,
                    frame,
                )
            },
            final(self)@.wf(),
    {
        if id.unicode_len() == 0 {
            return INVALID_INSTRUMENT;
        }
        if self.ids.len() == 0 {
            return INVALID_INSTRUMENT;
        }
        if contains_id(&self.ids, id) {
            return INVALID_INSTRUMENT;
        }
        if !(col >= 0 && col < NUM_INSTRUMENT_COLS as i32) {
            return INVALID_INSTRUMENT;
        }
        let c = col as usize;
        let ghost v = self@;
        assert(v.columns[c as int] == self.columns@[c as int]@);
        let len = self.columns[c].len();
        if len >= MAX_INSTRUMENTS_PER_COL {
            return INVALID_INSTRUMENT;
        }
        let st = InstrumentState {
            press_function: press,
            release_function: release,
            frame_function: frame,
            set_param0_function: 0,
            set_param1_function: 0,
            frames_after_release,
            pressed_note: None,
        };
        self.columns[c].push(st);
        let index = len * 4 + c;
        let mut name = String::new();
        let chars = chars_of(id);
        let mut k: usize = 0;
        while k < chars.len()
            invariant
                k <= chars@.len(),
                name@ == chars@.take(k as int),
            decreases chars@.len() - k,
        {
            crate::text::push_char(&mut name, chars[k]);
            assert(chars@.take(k + 1) =~= chars@.take(k as int).push(chars@[k as int]));
            k = k + 1;
        }
        assert(chars@.take(chars@.len() as int) =~= id@);
        self.ids.set(index, name);
        proof {
            let target = spec_set_instrument_at_column(v, id@, col as int, frames_after_release, press, release, frame);
            assert(self@.ids =~= target.ids);
            assert(self@.columns =~= target.columns);
            assert(self@.params =~= target.params);
        }
        index as i32
    }

    /// Defines parameter `param_num` of the instrument in slot `instrument`, unless
    /// `param_ignored` holds (see `spec_define_param`).
    pub fn define_param(
        &mut self,
        instrument: i32,
        param_num: i32,
        name: &str,
        default: i32,
        min: i32,
        max: i32,
        set_param: u32,
    )
        requires
            old(self)@.wf(),
            !param_ignored(name@, instrument, param_num) ==> old(self)@.loading() && str_slice(name@, 0, 2) is Some,
        ensures
            param_ignored(name@, instrument, param_num) ==> final(self)@ == old(self)@,
            !param_ignored(name@, instrument, param_num) ==> final(self)@ == spec_define_param(
                old(self)@,
                instrument,
                param_num,
                str_slice(name@, 0, 2)->0,
                default,
                min,
                max,
                set_param,
            ),
            final(self)@.wf(),
    {
        if name.unicode_len() == 0 {
            return;
        }
        if instrument < 0 || instrument >= NUM_INSTRUMENTS as i32 {
            return;
        }
        if param_num < 0 || param_num >= NUM_INSTRUMENT_PARAMS as i32 {
            return;
        }
        let short_name = match crate::markdown::str_get(name, 0, 2) {
            Some(n) => n,
            None => {
                return;
            },
        };
        let i = instrument as usize;
        let pn = param_num as usize;
        let ghost v = self@;
        let def = InstrumentParamDef { name: short_name, default: default as i8, min: min as i8, max: max as i8 };
        let ghost dv = def@;
        let mut row: Vec<Option<InstrumentParamDef>> = Vec::new();
        std::mem::swap(&mut row, &mut self.params[i]);
        assert(param_row_view(row@) == v.params[i as int]);
        row.set(pn, Some(def));
        self.params.set(i, row);
        proof {
            let target_params = v.params.update(i as int, v.params[i as int].update(pn as int, Some(dv)));
            assert(param_row_view(self.params@[i as int]@) =~= target_params[i as int]);
            assert(self@.params =~= target_params);
        }
        let ghost v1 = self@;
        let index = instrument as u8;
        let col = (index & 3) as usize;
        let r = (index >> 2) as usize;
        assert(index & 3 == index % 4 && index >> 2 == index / 4) by (bit_vector);
        assert(v1.columns[col as int] == self.columns@[col as int]@);
        if r < self.columns[col].len() {
            let mut st = self.columns[col][r];
            if pn == 0 {
                st.set_param0_function = set_param;
            } else {
                st.set_param1_function = set_param;
            }
            self.columns[col].set(r, st);
            assert(self@.columns =~= v1.with_slot_state(index, st).columns);
        }
    }

    /// Starts the note of the instrument in slot `instrument`, if it is declared, and
    /// returns the call of its press function, if it has one.
    pub fn press_instrument_note(&mut self, frame_number: usize, instrument: u8, note: u8, param0: i8, param1: i8) -> (r: Option<ScriptCall>)
        requires
            old(self)@.wf(),
            note < 128,
        ensures
            (final(self)@, r) == spec_press(old(self)@, frame_number, instrument, note, param0, param1),
            final(self)@.wf(),
    {
        let col = (instrument & 3) as usize;
        let row = (instrument >> 2) as usize;
        assert(instrument & 3 == instrument % 4 && instrument >> 2 == instrument / 4) by (bit_vector);
        let ghost v = self@;
        assert(v.columns[col as int] == self.columns@[col as int]@);
        if row >= self.columns[col].len() {
            return None;
        }
        let mut st = self.columns[col][row];
        st.pressed_note = Some(PressedNote { note, pressed_frame: frame_number, extended_frames: None });
        self.columns[col].set(row, st);
        assert(self@.columns =~= v.with_slot_state(instrument, st).columns);
        if st.press_function != 0 {
            Some(ScriptCall::Press(st.press_function, note_to_freq(note), note as i32, param0 as i32, param1 as i32))
        } else {
            None
        }
    }

    /// Releases the note of the instrument in slot `instrument`, if it plays one: returns
    /// the call of its release function, if it has one; the note keeps its frame function
    /// running for the instrument's frames after release, if any.
    pub fn release_instrument(&mut self, frame_number: usize, instrument: u8) -> (r: Option<ScriptCall>)
        requires
            old(self)@.wf(),
            old(self)@.slot_state(instrument) matches Some(st) ==> (st.pressed_note matches Some(pn)
                ==> pn.pressed_frame <= frame_number),
        ensures
            (final(self)@, r) == spec_release(old(self)@, frame_number, instrument),
            final(self)@.wf(),
    {
        let col = (instrument & 3) as usize;
        let row = (instrument >> 2) as usize;
        assert(instrument & 3 == instrument % 4 && instrument >> 2 == instrument / 4) by (bit_vector);
        let ghost v = self@;
        assert(v.columns[col as int] == self.columns@[col as int]@);
        if row >= self.columns[col].len() {
            return None;
        }
        let mut st = self.columns[col][row];
        match st.pressed_note {
            Some(pn) => {
                let call = if st.release_function != 0 {
                    Some(ScriptCall::Release(
                        st.release_function,
                        note_to_freq(pn.note),
                        pn.note as i32,
                        (frame_number - pn.pressed_frame) as i32,
                    ))
                } else {
                    None
                };
                if st.frames_after_release > 0 {
                    st.pressed_note = Some(PressedNote { extended_frames: Some(st.frames_after_release as usize), ..pn });
                } else {
                    st.pressed_note = None;
                }
                self.columns[col].set(row, st);
                assert(self@.columns =~= v.with_slot_state(instrument, st).columns);
                call
            },
            None => None,
        }
    }

    /// The call that sets parameter `param_num` of the instrument in slot `instrument` to
    /// `val`, if it is declared with a function for that parameter.
    pub fn set_instrument_param(&self, instrument: u8, param_num: u8, val: i8) -> (r: Option<ScriptCall>)
        requires
            self@.wf(),
            self@.slot_state(instrument) is Some ==> param_num < 2,
        ensures
            r == spec_param_call(self@, instrument, param_num, val),
    {
        let col = (instrument & 3) as usize;
        let row = (instrument >> 2) as usize;
        assert(instrument & 3 == instrument % 4 && instrument >> 2 == instrument / 4) by (bit_vector);
        assert(self@.columns[col as int] == self.columns@[col as int]@);
        if row >= self.columns[col].len() {
            return None;
        }
        let st = self.columns[col][row];
        let f = if param_num == 0 { st.set_param0_function } else { st.set_param1_function };
        if f != 0 {
            Some(ScriptCall::SetParam(f, val as i32))
        } else {
            None
        }
    }

    /// Whether the instrument in slot `instrument` is declared with a function that sets
    /// parameter `param_num`.
    pub fn instrument_has_set_param_fn(&self, instrument: u8, param_num: u8) -> (r: bool)
        requires
            self@.wf(),
            self@.slot_state(instrument) is Some ==> param_num < 2,
        ensures
            r == match self@.slot_state(instrument) {
                Some(st) => (if param_num == 0 { st.set_param0_function } else { st.set_param1_function }) != 0,
                None => false,
            },
    {
        self.set_instrument_param(instrument, param_num, 0).is_some()
    }

    /// Lets go of every instrument's note.
    pub fn release_instruments(&mut self)
        requires
            old(self)@.wf(),
        ensures
            final(self)@ == spec_release_all(old(self)@),
            final(self)@.wf(),
    {
        release_all(&mut self.columns);
        proof {
            let v = old(self)@;
            assert(self@.columns =~= Seq::new(
                v.columns.len(),
                |c: int| Seq::new(v.columns[c].len(), |r: int| InstrumentState { pressed_note: None, ..v.columns[c][r] }),
            ));
        }
    }

    /// Runs one frame: the frame functions of pressed instruments are to be called, in
    /// column order, and released notes count down (see `advance_state`).
    pub fn advance_frame(&mut self, frame_number: usize) -> (r: Vec<ScriptCall>)
        requires
            old(self)@.wf(),
            pressed_before(old(self)@.columns, frame_number),
        ensures
            r@ == frame_calls(old(self)@.columns, frame_number, NUM_INSTRUMENT_COLS as int),
            final(self)@ == (SynthScriptView { columns: advanced_columns(old(self)@.columns, frame_number), ..old(self)@ }),
            final(self)@.wf(),
    {
        let mut calls: Vec<ScriptCall> = Vec::new();
        let ghost v = self@;
        assert forall|c: int, r: int| 0 <= c < self.columns@.len() && 0 <= r < self.columns@[c]@.len() implies {
            &&& state_wf(#[trigger] self.columns@[c]@[r])
            &&& (self.columns@[c]@[r].pressed_note matches Some(pn) ==> pn.pressed_frame <= frame_number)
        } by {
            assert(self.columns@[c]@[r] == v.columns[c][r]);
        }
        advance_columns(&mut self.columns, frame_number, &mut calls);
        proof {
            assert(Seq::new(old(self).columns@.len(), |c: int| old(self).columns@[c]@) =~= v.columns);
            assert(self@.columns =~= advanced_columns(v.columns, frame_number));
            assert forall|c: int, r: int|
                0 <= c < self@.columns.len() && 0 <= r < self@.columns[c].len() implies state_wf(#[trigger] self@.columns[c][r]) by {
                assert(state_wf(v.columns[c][r]));
            }
        }
        calls
    }
}

/// Lets go of the note of every instrument of every column.
fn release_all(columns: &mut Vec<Vec<InstrumentState>>)
    ensures
        final(columns)@.len() == old(columns)@.len(),
        forall|c: int| 0 <= c < old(columns)@.len() ==> (#[trigger] final(columns)@[c])@ == Seq::new(
            old(columns)@[c]@.len(),
            |r: int| InstrumentState { pressed_note: None, ..old(columns)@[c]@[r] },
        ),
{
    let ghost old_cols = columns@;
    let mut c: usize = 0;
    while c < columns.len()
        invariant
            c <= old_cols.len(),
            columns@.len() == old_cols.len(),
            forall|q: int| 0 <= q < c ==> (#[trigger] columns@[q])@ == Seq::new(
                old_cols[q]@.len(),
                |r: int| InstrumentState { pressed_note: None, ..old_cols[q]@[r] },
            ),
            forall|q: int| c <= q < old_cols.len() ==> #[trigger] columns@[q] == old_cols[q],
        decreases old_cols.len() - c,
    {
        release_column(&mut columns[c]);
        c = c + 1;
    }
}

/// Lets go of the note of every instrument of a column.
fn release_column(column: &mut Vec<InstrumentState>)
    ensures
        final(column)@ == Seq::new(old(column)@.len(), |r: int| InstrumentState { pressed_note: None, ..old(column)@[r] }),
{
    let ghost old_col = column@;
    let mut i: usize = 0;
    while i < column.len()
        invariant
            i <= old_col.len(),
            column@.len() == old_col.len(),
            forall|r: int| 0 <= r < i ==> #[trigger] column@[r] == (InstrumentState { pressed_note: None, ..old_col[r] }),
            forall|r: int| i <= r < old_col.len() ==> #[trigger] column@[r] == old_col[r],
        decreases old_col.len() - i,
    {
        let mut st = column[i];
        st.pressed_note = None;
        column.set(i, st);
        i = i + 1;
    }
    assert(column@ =~= Seq::new(old_col.len(), |r: int| InstrumentState { pressed_note: None, ..old_col[r] }));
}

} // verus!
