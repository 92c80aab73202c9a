use vstd::prelude::*;
use crate::consts::{NUM_INSTRUMENTS, NUM_INSTRUMENT_COLS, NUM_STEPS};
use crate::engine::{NoteSource, NoteTracker, ScriptOp, dispatch_upto, send_note_events_to_synth, spec_singularize};
use crate::sequencer::{
    KeyEvent, OnEmpty, Sequencer, SequencerView, SongSettings, SongView, advance_frame_result, cycle_base_note, cycle_step_note_result,
    cycle_step_param_result, note_increment, release_placeable, spec_advance_frame, spec_cycle_step_note,
    spec_cycle_step_param, spec_load_default, spec_new_sequencer, spec_record_key_event, spec_record_press,
    spec_set_default_step_note, spec_set_default_step_params, spec_set_synth_instrument_ids, stepped_param,
};
use crate::synth_script::{
    InstrumentState, PressedNote, ScriptCall, SynthScript, SynthScriptView, advance_state, advanced_columns, frame_calls, pressed_before,
    INVALID_INSTRUMENT, instrument_refused, next_slot, param_ignored, spec_define_param, spec_empty_script,
    spec_loading_script, spec_param_call, spec_press, spec_release, spec_release_all, spec_set_instrument_at_column,
};
use crate::markdown::str_slice;

verus! {

/// The sequencer and the registry of the instruments script together, with the frame
/// count and the note that the displayed instrument plays. Each operation returns the
/// calls of the instruments script that the caller is to make; the sound chip stays with
/// the caller too.
pub struct SoundEngine {
    sequencer: Sequencer,
    script: SynthScript,
    frame_number: usize,
    notes: NoteTracker,
}

/// The state of the sound engine, as plain values.
pub struct EngineView {
    pub sequencer: SequencerView,
    pub script: SynthScriptView,
    pub frame_number: usize,
    pub pressed_note: Option<NoteSource>,
}

impl View for SoundEngine {
    type V = EngineView;

    closed spec fn view(&self) -> EngineView {
        EngineView {
            sequencer: self.sequencer@,
            script: self.script@,
            frame_number: self.frame_number,
            pressed_note: self.notes.pressed_note,
        }
    }
}

impl EngineView {
    /// The engine is sound: a loaded sequencer, a sound registry, and no note pressed
    /// after the current frame.
    pub open spec fn wf(self) -> bool {
        &&& self.sequencer.wf()
        &&& self.script.wf()
        &&& pressed_before(self.script.columns, self.frame_number)
    }
}

/// A call that may not be made, as a sequence of calls.
pub open spec fn opt_calls(c: Option<ScriptCall>) -> Seq<ScriptCall> {
    match c {
        Some(x) => seq![x],
        None => Seq::empty(),
    }
}

/// The registry and the calls after one operation of the sequencer on the instruments
/// script at frame `frame`. The sequencer only sets parameters `0` and `1`.
pub open spec fn spec_apply_op(v: SynthScriptView, frame: usize, op: ScriptOp) -> (SynthScriptView, Seq<ScriptCall>) {
    match op {
        ScriptOp::Press(i, note, p0, p1) => {
            let (v2, c) = spec_press(v, frame, i, note, p0, p1);
            (v2, opt_calls(c))
        },
        ScriptOp::Release(i) => {
            let (v2, c) = spec_release(v, frame, i);
            (v2, opt_calls(c))
        },
        ScriptOp::SetParam(i, n, val) => (v, if n < 2 {
            opt_calls(spec_param_call(v, i, n, val))
        } else {
            Seq::empty()
        }),
    }
}

/// The registry and the calls, in order, after the first `n` operations.
pub open spec fn apply_ops_upto(v: SynthScriptView, frame: usize, ops: Seq<ScriptOp>, n: int) -> (SynthScriptView, Seq<ScriptCall>)
    decreases n,
{
    if n <= 0 {
        (v, Seq::empty())
    } else {
        let (v1, c1) = apply_ops_upto(v, frame, ops, n - 1);
        let (v2, c2) = spec_apply_op(v1, frame, ops[n - 1]);
        (v2, c1 + c2)
    }
}

/// A press of a note that has a frequency.
pub open spec fn op_playable(op: ScriptOp) -> bool {
    match op {
        ScriptOp::Press(_, note, _, _) => note < 128,
        _ => true,
    }
}

/// Every press among `ops` is of a note that has a frequency.
pub open spec fn ops_playable(ops: Seq<ScriptOp>) -> bool {
    forall|i: int| 0 <= i < ops.len() ==> op_playable(#[trigger] ops[i])
}

/// The script operations of a frame of the sequencer in state `v`, with the note tracker
/// at `pressed`: the events of the frame, dispatched for the displayed instrument.
pub open spec fn frame_ops(v: SequencerView, pressed: Option<NoteSource>) -> (Option<NoteSource>, Seq<ScriptOp>) {
    let events = advance_frame_result(v).1;
    dispatch_upto(pressed, spec_advance_frame(v).displayed_instrument, events, events.len() as int)
}

/// The state after cycling the notes of displayed steps `first` to `k - 1`, leaving empty
/// steps empty.
pub open spec fn range_note_state(v: SequencerView, first: int, k: int, forward: bool, large_inc: bool) -> SequencerView
    decreases k - first,
{
    if k <= first {
        v
    } else {
        spec_cycle_step_note(
            range_note_state(v, first, k - 1, forward, large_inc),
            k - 1,
            Some(forward),
            large_inc,
            OnEmpty::EmptyOnEmpty,
        )
    }
}

/// The state after cycling parameter `param_num` of displayed steps `first` to `k - 1`,
/// leaving steps without it as they are.
pub open spec fn range_param_state(v: SequencerView, first: int, k: int, param_num: u8, forward: bool, large_inc: bool) -> SequencerView
    decreases k - first,
{
    if k <= first {
        v
    } else {
        spec_cycle_step_param(
            range_param_state(v, first, k - 1, param_num, forward, large_inc),
            k - 1,
            param_num,
            Some(forward),
            large_inc,
            OnEmpty::EmptyOnEmpty,
        )
    }
}

/// Replacing the state of a declared slot by one pressed no later than `frame` keeps
/// every note pressed no later than `frame`.
proof fn lemma_slot_update_keeps_order(v: SynthScriptView, index: u8, st: InstrumentState, frame: usize)
    requires
        v.columns.len() == NUM_INSTRUMENT_COLS,
        v.slot_state(index) is Some,
        pressed_before(v.columns, frame),
        st.pressed_note matches Some(pn) ==> pn.pressed_frame <= frame,
    ensures
        pressed_before(v.with_slot_state(index, st).columns, frame),
{
    let v2 = v.with_slot_state(index, st);
    let col = (index % 4) as int;
    let row = (index / 4) as int;
    assert forall|c: int, r: int| 0 <= c < v2.columns.len() && 0 <= r < v2.columns[c].len() implies ((
    #[trigger] v2.columns[c][r]).pressed_note matches Some(pn) ==> pn.pressed_frame <= frame) by {
        if c != col || r != row {
            assert(v2.columns[c][r] == v.columns[c][r]);
        }
    }
}

/// An operation at frame `frame` keeps the registry sound and every note pressed no later
/// than `frame`.
proof fn lemma_apply_op_keeps_order(v: SynthScriptView, frame: usize, op: ScriptOp)
    requires
        v.wf(),
        pressed_before(v.columns, frame),
        op_playable(op),
    ensures
        pressed_before(spec_apply_op(v, frame, op).0.columns, frame),
{
    match op {
        ScriptOp::Press(i, note, p0, p1) => {
            if let Some(st) = v.slot_state(i) {
                lemma_slot_update_keeps_order(
                    v,
                    i,
                    InstrumentState {
                        pressed_note: Some(PressedNote { note, pressed_frame: frame, extended_frames: None }),
                        ..st
                    },
                    frame,
                );
            }
        },
        ScriptOp::Release(i) => {
            if let Some(st) = v.slot_state(i) {
                if let Some(pn) = st.pressed_note {
                    assert(pn.pressed_frame <= frame);
                    lemma_slot_update_keeps_order(
                        v,
                        i,
                        InstrumentState {
                            pressed_note: if st.frames_after_release > 0 {
                                Some(PressedNote { extended_frames: Some(st.frames_after_release as usize), ..pn })
                            } else {
                                None
                            },
                            ..st
                        },
                        frame,
                    );
                }
            }
        },
        ScriptOp::SetParam(..) => {},
    }
}

/// A frame keeps every note pressed no later than the next frame.
proof fn lemma_advance_keeps_order(columns: Seq<Seq<InstrumentState>>, frame: usize)
    requires
        pressed_before(columns, frame),
        frame < usize::MAX,
    ensures
        pressed_before(advanced_columns(columns, frame), (frame + 1) as usize),
{
    let a = advanced_columns(columns, frame);
    assert forall|c: int, r: int| 0 <= c < a.len() && 0 <= r < a[c].len() implies ((#[trigger] a[c][r]).pressed_note matches Some(pn)
        ==> pn.pressed_frame <= frame + 1) by {
        assert(a[c][r] == advance_state(columns[c][r], frame).0);
    }
}

/// Makes the script operations in order, at frame `frame`; returns the calls to make.
fn apply_ops(script: &mut SynthScript, frame: usize, ops: &Vec<ScriptOp>) -> (r: Vec<ScriptCall>)
    requires
        old(script)@.wf(),
        pressed_before(old(script)@.columns, frame),
        ops_playable(ops@),
    ensures
        (final(script)@, r@) == apply_ops_upto(old(script)@, frame, ops@, ops@.len() as int),
        final(script)@.wf(),
        pressed_before(final(script)@.columns, frame),
{
    let mut calls: Vec<ScriptCall> = Vec::new();
    let mut i: usize = 0;
    while i < ops.len()
        invariant
            i <= ops@.len(),
            ops_playable(ops@),
            script@.wf(),
            pressed_before(script@.columns, frame),
            (script@, calls@) == apply_ops_upto(old(script)@, frame, ops@, i as int),
        decreases ops@.len() - i,
    {
        let ghost before = script@;
        assert(op_playable(ops@[i as int]));
        proof {
            lemma_apply_op_keeps_order(before, frame, ops@[i as int]);
        }
        let c = match ops[i] {
            ScriptOp::Press(ins, note, p0, p1) => script.press_instrument_note(frame, ins, note, p0, p1),
            ScriptOp::Release(ins) => script.release_instrument(frame, ins),
            ScriptOp::SetParam(ins, n, val) => {
                if n < 2 {
                    script.set_instrument_param(ins, n, val)
                } else {
                    None
                }
            },
        };
        let ghost calls_before = calls@;
        match c {
            Some(x) => calls.push(x),
            None => {},
        }
        assert(calls@ =~= calls_before + opt_calls(c));
        i = i + 1;
    }
    calls
}

impl SoundEngine {
    /// An engine with the song of a new project and no instruments.
    pub fn new() -> (r: SoundEngine)
        ensures
            r@.sequencer == spec_load_default(spec_new_sequencer()),
            r@.script == spec_empty_script(),
            r@.frame_number == 0,
            r@.pressed_note is None,
            r@.wf(),
    {
        let mut sequencer = Sequencer::new();
        sequencer.load_default();
        let r = SoundEngine { sequencer, script: SynthScript::new(), frame_number: 0, notes: NoteTracker::new() };
        assert forall|c: int, q: int| 0 <= c < r@.script.columns.len() && 0 <= q < r@.script.columns[c].len() implies ((
        #[trigger] r@.script.columns[c][q]).pressed_note matches Some(pn) ==> pn.pressed_frame <= 0) by {}
        r
    }

    /// The sequencer.
    pub fn sequencer(&self) -> (r: &Sequencer)
        ensures
            r@ == self@.sequencer,
    {
        &self.sequencer
    }

    /// The sequencer, to edit the song; the rest of the engine stays as it is.
    pub fn sequencer_mut(&mut self) -> (r: &mut Sequencer)
        ensures
            r@ == old(self)@.sequencer,
            final(self)@ == (EngineView { sequencer: final(r)@, ..old(self)@ }),
    {
        &mut self.sequencer
    }

    /// Whether playback can start: the loaded instruments declared their identifiers.
    pub fn is_ready(&self) -> (r: bool)
        ensures
            r == self@.sequencer.received_instruments_ids_after_load,
    {
        self.sequencer.received_instruments_ids_after_load()
    }

    /// Applies the song settings that the user changed.
    pub fn apply_song_settings(&mut self, settings: &SongSettings)
        requires
            old(self)@.wf(),
        ensures
            final(self)@ == (EngineView {
                sequencer: SequencerView {
                    song: SongView { frames_per_step: settings.frames_per_step as u32, ..old(self)@.sequencer.song },
                    ..old(self)@.sequencer
                },
                ..old(self)@
            }),
            final(self)@.wf(),
    {
        self.sequencer.apply_song_settings(settings);
    }

    /// Lets go of every instrument's note (the caller mutes the sound chip).
    pub fn mute_instruments(&mut self)
        requires
            old(self)@.wf(),
        ensures
            final(self)@ == (EngineView { script: spec_release_all(old(self)@.script), ..old(self)@ }),
            final(self)@.wf(),
    {
        self.script.release_instruments();
        proof {
            let v = self@.script;
            assert forall|c: int, q: int| 0 <= c < v.columns.len() && 0 <= q < v.columns[c].len() implies ((
            #[trigger] v.columns[c][q]).pressed_note matches Some(pn) ==> pn.pressed_frame <= self.frame_number) by {}
        }
    }

    /// Starts or stops playback; stopping lets go of every note.
    pub fn set_playing(&mut self, playing: bool, song_mode: bool)
        requires
            old(self)@.wf(),
        ensures
            final(self)@ == (EngineView {
                sequencer: SequencerView {
                    playing,
                    play_song_mode: song_mode,
                    active_frame: None,
                    ..old(self)@.sequencer
                },
                script: if playing {
                    old(self)@.script
                } else {
                    spec_release_all(old(self)@.script)
                },
                ..old(self)@
            }),
            final(self)@.wf(),
    {
        self.sequencer.set_playing(playing, song_mode);
        if !playing {
            self.mute_instruments();
        }
    }

    /// Runs one frame: the sequencer plays its events, which go to the instruments script
    /// (see `frame_ops` and `spec_apply_op`), then the frame functions of pressed
    /// instruments run. Returns the step that playback moved to, if it moved, and the
    /// calls to make, in order.
    pub fn advance_frame(&mut self) -> (r: (Option<u32>, Vec<ScriptCall>))
        requires
            old(self)@.wf(),
            old(self)@.sequencer.playing && old(self)@.sequencer.active_frame is Some ==> {
                &&& old(self)@.sequencer.song.frames_per_step > 0
                &&& old(self)@.sequencer.active_frame->0 < u32::MAX
            },
            old(self)@.frame_number < usize::MAX,
            ops_playable(frame_ops(old(self)@.sequencer, old(self)@.pressed_note).1),
        ensures
            ({
                let old_v = old(self)@;
                let frame = old_v.frame_number;
                let (pressed, ops) = frame_ops(old_v.sequencer, old_v.pressed_note);
                let (sv, calls) = apply_ops_upto(old_v.script, frame, ops, ops.len() as int);
                &&& r.0 == advance_frame_result(old_v.sequencer).0
                &&& r.1@ == calls + frame_calls(sv.columns, frame, NUM_INSTRUMENT_COLS as int)
                &&& final(self)@ == EngineView {
                    sequencer: spec_advance_frame(old_v.sequencer),
                    script: SynthScriptView { columns: advanced_columns(sv.columns, frame), ..sv },
                    frame_number: (frame + 1) as usize,
                    pressed_note: pressed,
                }
            }),
            final(self)@.wf(),
    {
        let (step_change, note_events) = self.sequencer.advance_frame();
        let displayed = self.sequencer.displayed_instrument();
        let ops = send_note_events_to_synth(&mut self.notes, displayed, &note_events);
        let mut calls = apply_ops(&mut self.script, self.frame_number, &ops);
        let ghost sv = self.script@;
        let mut frame_calls_v = self.script.advance_frame(self.frame_number);
        calls.append(&mut frame_calls_v);
        proof {
            lemma_advance_keeps_order(sv.columns, self.frame_number);
        }
        self.frame_number = self.frame_number + 1;
        (step_change, calls)
    }

    /// Whether the next frame presses only notes that have a frequency, as
    /// `advance_frame` requires (see `frame_ops`); nothing changes.
    pub fn next_frame_playable(&self) -> (r: bool)
        requires
            self@.wf(),
            self@.sequencer.playing && self@.sequencer.active_frame is Some ==> {
                &&& self@.sequencer.song.frames_per_step > 0
                &&& self@.sequencer.active_frame->0 < u32::MAX
            },
        ensures
            r == ops_playable(frame_ops(self@.sequencer, self@.pressed_note).1),
    {
        let mut sequencer = self.sequencer.duplicate();
        let (_, events) = sequencer.advance_frame();
        let mut notes = NoteTracker { pressed_note: self.notes.pressed_note };
        let ops = send_note_events_to_synth(&mut notes, sequencer.displayed_instrument(), &events);
        let mut i: usize = 0;
        while i < ops.len()
            invariant
                i <= ops@.len(),
                ops@ == frame_ops(self@.sequencer, self@.pressed_note).1,
                forall|j: int| 0 <= j < i ==> op_playable(#[trigger] ops@[j]),
            decreases ops@.len() - i,
        {
            if let ScriptOp::Press(_, note, _, _) = ops[i] {
                if note >= 128 {
                    assert(!op_playable(ops@[i as int]));
                    return false;
                }
            }
            i = i + 1;
        }
        true
    }

    /// Displays the steps of another instrument; its notes start unpressed.
    pub fn display_instrument(&mut self, instrument: u8)
        requires
            old(self)@.wf(),
            instrument < NUM_INSTRUMENTS,
        ensures
            final(self)@ == (EngineView {
                sequencer: SequencerView { displayed_instrument: instrument, ..old(self)@.sequencer },
                pressed_note: None,
                ..old(self)@
            }),
            final(self)@.wf(),
    {
        self.sequencer.display_instrument(instrument);
        self.notes.pressed_note = None;
    }

    /// Plays the note of the note clipboard on the displayed instrument with its
    /// parameters, as a preview while they change.
    pub fn cycle_instrument_param_start(&mut self) -> (r: Option<ScriptCall>)
        requires
            old(self)@.wf(),
            old(self)@.sequencer.default_note < 128,
        ensures
            ({
                let v = old(self)@;
                let ps = v.sequencer.displayed_params();
                &&& (final(self)@.script, r) == spec_press(
                    v.script,
                    v.frame_number,
                    v.sequencer.displayed_instrument,
                    v.sequencer.default_note,
                    ps.0,
                    ps.1,
                )
                &&& final(self)@ == EngineView { script: final(self)@.script, ..v }
            }),
            final(self)@.wf(),
    {
        let note = self.sequencer.clipboard_note();
        let (p0, p1) = self.sequencer.displayed_instrument_params();
        let instrument = self.sequencer.displayed_instrument();
        let ghost v = self.script@;
        let r = self.script.press_instrument_note(self.frame_number, instrument, note, p0, p1);
        proof {
            lemma_apply_op_keeps_order(v, self.frame_number, ScriptOp::Press(instrument, note, p0, p1));
        }
        r
    }

    /// Lets go of the preview note of the displayed instrument.
    pub fn cycle_instrument_param_end(&mut self) -> (r: Option<ScriptCall>)
        requires
            old(self)@.wf(),
        ensures
            (final(self)@.script, r) == spec_release(
                old(self)@.script,
                old(self)@.frame_number,
                old(self)@.sequencer.displayed_instrument,
            ),
            final(self)@ == (EngineView { script: final(self)@.script, ..old(self)@ }),
            final(self)@.wf(),
    {
        let instrument = self.sequencer.displayed_instrument();
        let ghost v = self.script@;
        let r = self.script.release_instrument(self.frame_number, instrument);
        proof {
            lemma_apply_op_keeps_order(v, self.frame_number, ScriptOp::Release(instrument));
        }
        r
    }

    /// Moves parameter `param_num` of the displayed instrument by one. An instrument with
    /// a function for that parameter gets the new value; another one plays the note of
    /// the note clipboard with the new parameters.
    pub fn cycle_instrument_param(&mut self, param_num: u8, forward: bool) -> (r: Option<ScriptCall>)
        requires
            old(self)@.wf(),
            param_num < 2,
            !(spec_param_call(old(self)@.script, old(self)@.sequencer.displayed_instrument, param_num, 0) is Some)
                ==> old(self)@.sequencer.default_note < 128,
        ensures
            ({
                let v = old(self)@;
                let d = v.sequencer.displayed_instrument;
                let ip = v.sequencer.displayed_params();
                let ps = if param_num == 0 {
                    (stepped_param(ip.0, forward), ip.1)
                } else {
                    (ip.0, stepped_param(ip.1, forward))
                };
                &&& final(self)@.sequencer == SequencerView {
                    instrument_params: v.sequencer.instrument_params.update(d as int, ps),
                    ..v.sequencer
                }
                &&& if spec_param_call(v.script, d, param_num, 0) is Some {
                    &&& final(self)@.script == v.script
                    &&& r == spec_param_call(v.script, d, param_num, if param_num == 0 { ps.0 } else { ps.1 })
                } else {
                    (final(self)@.script, r) == spec_press(v.script, v.frame_number, d, v.sequencer.default_note, ps.0, ps.1)
                }
                &&& final(self)@.frame_number == v.frame_number
                &&& final(self)@.pressed_note == v.pressed_note
            }),
            final(self)@.wf(),
    {
        let instrument = self.sequencer.displayed_instrument();
        let ps = self.sequencer.cycle_instrument_param(param_num, forward);
        let note = self.sequencer.clipboard_note();
        if self.script.instrument_has_set_param_fn(instrument, param_num) {
            self.script.set_instrument_param(instrument, param_num, if param_num == 0 { ps.0 } else { ps.1 })
        } else {
            let ghost v = self.script@;
            let r = self.script.press_instrument_note(self.frame_number, instrument, note, ps.0, ps.1);
            proof {
                lemma_apply_op_keeps_order(v, self.frame_number, ScriptOp::Press(instrument, note, ps.0, ps.1));
            }
            r
        }
    }

    /// Starts changing parameter `param_num` of a displayed step (an empty one takes the
    /// instrument's value) and, without playback, plays the step as a preview.
    pub fn cycle_step_param_start(&mut self, step: usize, param_num: u8) -> (r: Option<ScriptCall>)
        requires
            old(self)@.wf(),
            step < NUM_STEPS,
            !old(self)@.sequencer.playing ==> cycle_step_param_result(
                old(self)@.sequencer,
                step as int,
                param_num,
                None,
                false,
                OnEmpty::PasteOnEmpty,
            ).0 < 128,
        ensures
            ({
                let v = old(self)@;
                let seq2 = spec_cycle_step_param(v.sequencer, step as int, param_num, None, false, OnEmpty::PasteOnEmpty);
                let (note, p0, p1) = cycle_step_param_result(v.sequencer, step as int, param_num, None, false, OnEmpty::PasteOnEmpty);
                &&& final(self)@.sequencer == seq2
                &&& if !seq2.playing {
                    (final(self)@.script, r) == spec_press(v.script, v.frame_number, seq2.displayed_instrument, note, p0, p1)
                } else {
                    final(self)@.script == v.script && r is None
                }
                &&& final(self)@.frame_number == v.frame_number
                &&& final(self)@.pressed_note == v.pressed_note
            }),
            final(self)@.wf(),
    {
        let (note, p0, p1) = self.sequencer.cycle_step_param(step, param_num, None, false, OnEmpty::PasteOnEmpty);
        if !self.sequencer.playing() {
            let instrument = self.sequencer.displayed_instrument();
            self.press_displayed(instrument, note, p0, p1)
        } else {
            None
        }
    }

    /// Stops changing parameter `param_num` of a displayed step: the instrument takes the
    /// step's value, and without playback the preview note is let go.
    pub fn cycle_step_param_end(&mut self, step: usize, param_num: u8) -> (r: Option<ScriptCall>)
        requires
            old(self)@.wf(),
            step < NUM_STEPS,
        ensures
            ({
                let v = old(self)@;
                let seq2 = spec_set_default_step_params(v.sequencer, step as int, Some(param_num));
                &&& final(self)@.sequencer == seq2
                &&& if !seq2.playing {
                    (final(self)@.script, r) == spec_release(v.script, v.frame_number, seq2.displayed_instrument)
                } else {
                    final(self)@.script == v.script && r is None
                }
                &&& final(self)@.frame_number == v.frame_number
                &&& final(self)@.pressed_note == v.pressed_note
            }),
            final(self)@.wf(),
    {
        self.sequencer.set_default_step_params(step, Some(param_num));
        if !self.sequencer.playing() {
            let instrument = self.sequencer.displayed_instrument();
            self.release_displayed(instrument)
        } else {
            None
        }
    }

    /// Moves parameter `param_num` of a displayed step; without playback, an instrument
    /// with a function for that parameter gets the new value, another one plays the step.
    pub fn cycle_step_param(&mut self, step: usize, param_num: u8, forward: bool, large_inc: bool) -> (r: Option<ScriptCall>)
        requires
            old(self)@.wf(),
            step < NUM_STEPS,
            ({
                let seq2 = spec_cycle_step_param(
                    old(self)@.sequencer,
                    step as int,
                    param_num,
                    Some(forward),
                    large_inc,
                    OnEmpty::PasteOnEmpty,
                );
                let note = cycle_step_param_result(
                    old(self)@.sequencer,
                    step as int,
                    param_num,
                    Some(forward),
                    large_inc,
                    OnEmpty::PasteOnEmpty,
                ).0;
                !seq2.playing ==> {
                    &&& old(self)@.script.slot_state(seq2.displayed_instrument) is Some ==> param_num < 2
                    &&& !(spec_param_call(old(self)@.script, seq2.displayed_instrument, param_num, 0) is Some) ==> note < 128
                }
            }),
        ensures
            ({
                let v = old(self)@;
                let seq2 = spec_cycle_step_param(v.sequencer, step as int, param_num, Some(forward), large_inc, OnEmpty::PasteOnEmpty);
                let (note, p0, p1) = cycle_step_param_result(
                    v.sequencer,
                    step as int,
                    param_num,
                    Some(forward),
                    large_inc,
                    OnEmpty::PasteOnEmpty,
                );
                let d = seq2.displayed_instrument;
                &&& final(self)@.sequencer == seq2
                &&& if seq2.playing {
                    final(self)@.script == v.script && r is None
                } else if spec_param_call(v.script, d, param_num, 0) is Some {
                    final(self)@.script == v.script && r == spec_param_call(v.script, d, param_num, if param_num == 0 { p0 } else { p1 })
                } else {
                    (final(self)@.script, r) == spec_press(v.script, v.frame_number, d, note, p0, p1)
                }
                &&& final(self)@.frame_number == v.frame_number
                &&& final(self)@.pressed_note == v.pressed_note
            }),
            final(self)@.wf(),
    {
        let (note, p0, p1) = self.sequencer.cycle_step_param(step, param_num, Some(forward), large_inc, OnEmpty::PasteOnEmpty);
        if !self.sequencer.playing() {
            let instrument = self.sequencer.displayed_instrument();
            if self.script.instrument_has_set_param_fn(instrument, param_num) {
                self.script.set_instrument_param(instrument, param_num, if param_num == 0 { p0 } else { p1 })
            } else {
                self.press_displayed(instrument, note, p0, p1)
            }
        } else {
            None
        }
    }

    /// Moves parameter `param_num` of displayed steps `first` to `last`; steps without it
    /// stay as they are.
    pub fn cycle_step_range_param(&mut self, step_range_first: usize, step_range_last: usize, param_num: u8, forward: bool, large_inc: bool)
        requires
            old(self)@.wf(),
            step_range_first <= step_range_last < NUM_STEPS,
        ensures
            final(self)@ == (EngineView {
                sequencer: range_param_state(
                    old(self)@.sequencer,
                    step_range_first as int,
                    step_range_last + 1,
                    param_num,
                    forward,
                    large_inc,
                ),
                ..old(self)@
            }),
            final(self)@.wf(),
    {
        let mut step = step_range_first;
        while step <= step_range_last
            invariant
                step_range_first <= step <= step_range_last + 1,
                step_range_last < NUM_STEPS,
                self@.sequencer.wf(),
                self@ == (EngineView {
                    sequencer: range_param_state(old(self)@.sequencer, step_range_first as int, step as int, param_num, forward, large_inc),
                    ..old(self)@
                }),
            decreases step_range_last + 1 - step,
        {
            self.sequencer.cycle_step_param(step, param_num, Some(forward), large_inc, OnEmpty::EmptyOnEmpty);
            step = step + 1;
        }
    }

    /// Starts changing the note of a displayed step (an empty one takes the note
    /// clipboard) and, without playback, plays the step as a preview.
    pub fn cycle_step_note_start(&mut self, step: usize) -> (r: Option<ScriptCall>)
        requires
            old(self)@.wf(),
            step < NUM_STEPS,
            !old(self)@.sequencer.playing ==> cycle_step_note_result(
                old(self)@.sequencer,
                step as int,
                None,
                false,
                OnEmpty::PasteOnEmpty,
            ).0 < 128,
        ensures
            ({
                let v = old(self)@;
                let seq2 = spec_cycle_step_note(v.sequencer, step as int, None, false, OnEmpty::PasteOnEmpty);
                let (note, p0, p1) = cycle_step_note_result(v.sequencer, step as int, None, false, OnEmpty::PasteOnEmpty);
                &&& final(self)@.sequencer == seq2
                &&& if !seq2.playing {
                    (final(self)@.script, r) == spec_press(v.script, v.frame_number, seq2.displayed_instrument, note, p0, p1)
                } else {
                    final(self)@.script == v.script && r is None
                }
                &&& final(self)@.frame_number == v.frame_number
                &&& final(self)@.pressed_note == v.pressed_note
            }),
            final(self)@.wf(),
    {
        let (note, p0, p1) = self.sequencer.cycle_step_note(step, None, false, OnEmpty::PasteOnEmpty);
        if !self.sequencer.playing() {
            let instrument = self.sequencer.displayed_instrument();
            self.press_displayed(instrument, note, p0, p1)
        } else {
            None
        }
    }

    /// Stops changing the note of a displayed step: the note clipboard takes the step's
    /// note, and without playback the preview note is let go.
    pub fn cycle_step_note_end(&mut self, step: usize) -> (r: Option<ScriptCall>)
        requires
            old(self)@.wf(),
            step < NUM_STEPS,
        ensures
            ({
                let v = old(self)@;
                let seq2 = spec_set_default_step_note(v.sequencer, step as int);
                &&& final(self)@.sequencer == seq2
                &&& if !seq2.playing {
                    (final(self)@.script, r) == spec_release(v.script, v.frame_number, seq2.displayed_instrument)
                } else {
                    final(self)@.script == v.script && r is None
                }
                &&& final(self)@.frame_number == v.frame_number
                &&& final(self)@.pressed_note == v.pressed_note
            }),
            final(self)@.wf(),
    {
        self.sequencer.set_default_step_note(step);
        if !self.sequencer.playing() {
            let instrument = self.sequencer.displayed_instrument();
            self.release_displayed(instrument)
        } else {
            None
        }
    }

    /// Moves the note of a displayed step by a semitone or an octave and, without
    /// playback, plays the step.
    pub fn cycle_step_note(&mut self, step: usize, forward: bool, large_inc: bool) -> (r: Option<ScriptCall>)
        requires
            old(self)@.wf(),
            step < NUM_STEPS,
            !forward ==> cycle_base_note(old(self)@.sequencer, step as int) >= note_increment(large_inc),
            !spec_cycle_step_note(old(self)@.sequencer, step as int, Some(forward), large_inc, OnEmpty::PasteOnEmpty).playing
                ==> cycle_step_note_result(
                old(self)@.sequencer,
                step as int,
                Some(forward),
                large_inc,
                OnEmpty::PasteOnEmpty,
            ).0 < 128,
        ensures
            ({
                let v = old(self)@;
                let seq2 = spec_cycle_step_note(v.sequencer, step as int, Some(forward), large_inc, OnEmpty::PasteOnEmpty);
                let (note, p0, p1) = cycle_step_note_result(v.sequencer, step as int, Some(forward), large_inc, OnEmpty::PasteOnEmpty);
                &&& final(self)@.sequencer == seq2
                &&& if !seq2.playing {
                    (final(self)@.script, r) == spec_press(v.script, v.frame_number, seq2.displayed_instrument, note, p0, p1)
                } else {
                    final(self)@.script == v.script && r is None
                }
                &&& final(self)@.frame_number == v.frame_number
                &&& final(self)@.pressed_note == v.pressed_note
            }),
            final(self)@.wf(),
    {
        let (note, p0, p1) = self.sequencer.cycle_step_note(step, Some(forward), large_inc, OnEmpty::PasteOnEmpty);
        if !self.sequencer.playing() {
            let instrument = self.sequencer.displayed_instrument();
            self.press_displayed(instrument, note, p0, p1)
        } else {
            None
        }
    }

    /// Moves the notes of displayed steps `first` to `last`; empty steps stay empty.
    pub fn cycle_step_range_note(&mut self, step_range_first: usize, step_range_last: usize, forward: bool, large_inc: bool)
        requires
            old(self)@.wf(),
            step_range_first <= step_range_last < NUM_STEPS,
            !forward ==> forall|k: int|
                step_range_first <= k <= step_range_last ==> #[trigger] cycle_base_note(
                    range_note_state(old(self)@.sequencer, step_range_first as int, k, forward, large_inc),
                    k,
                ) >= note_increment(large_inc),
        ensures
            final(self)@ == (EngineView {
                sequencer: range_note_state(
                    old(self)@.sequencer,
                    step_range_first as int,
                    step_range_last + 1,
                    forward,
                    large_inc,
                ),
                ..old(self)@
            }),
            final(self)@.wf(),
    {
        let mut step = step_range_first;
        while step <= step_range_last
            invariant
                step_range_first <= step <= step_range_last + 1,
                step_range_last < NUM_STEPS,
                self@.sequencer.wf(),
                !forward ==> forall|k: int|
                    step_range_first <= k <= step_range_last ==> #[trigger] cycle_base_note(
                        range_note_state(old(self)@.sequencer, step_range_first as int, k, forward, large_inc),
                        k,
                    ) >= note_increment(large_inc),
                self@ == (EngineView {
                    sequencer: range_note_state(old(self)@.sequencer, step_range_first as int, step as int, forward, large_inc),
                    ..old(self)@
                }),
            decreases step_range_last + 1 - step,
        {
            assert(!forward ==> cycle_base_note(
                range_note_state(old(self)@.sequencer, step_range_first as int, step as int, forward, large_inc),
                step as int,
            ) >= note_increment(large_inc));
            self.sequencer.cycle_step_note(step, Some(forward), large_inc, OnEmpty::EmptyOnEmpty);
            step = step + 1;
        }
    }

    /// Plays a note on the displayed instrument and records it; it becomes the note that
    /// the displayed instrument plays.
    pub fn press_note(&mut self, note: u8) -> (r: Option<ScriptCall>)
        requires
            old(self)@.wf(),
            0 < note < 128,
            old(self)@.sequencer.recording && old(self)@.sequencer.playing ==> old(self)@.sequencer.song.frames_per_step > 0,
        ensures
            ({
                let v = old(self)@;
                let seq2 = spec_record_press(v.sequencer, note);
                let ps = v.sequencer.displayed_params();
                &&& final(self)@.sequencer == seq2
                &&& (final(self)@.script, r) == spec_press(v.script, v.frame_number, seq2.displayed_instrument, note, ps.0, ps.1)
                &&& final(self)@.pressed_note == spec_singularize(v.pressed_note, NoteSource::Key(note), true).0
                &&& final(self)@.frame_number == v.frame_number
            }),
            final(self)@.wf(),
    {
        let (p0, p1) = self.sequencer.record_press(note);
        let instrument = self.sequencer.displayed_instrument();
        let r = self.press_displayed(instrument, note, p0, p1);
        self.notes.singularize_note_release(NoteSource::Key(note), true);
        r
    }

    /// Lets go of a played note: only when it is the note that the displayed instrument
    /// plays is the instrument released and the release recorded.
    pub fn release_note(&mut self, note: u8) -> (r: Option<ScriptCall>)
        requires
            old(self)@.wf(),
            spec_singularize(old(self)@.pressed_note, NoteSource::Key(note), false).1 is Some && old(self)@.sequencer.recording
                && old(self)@.sequencer.playing ==> old(self)@.sequencer.song.frames_per_step > 0 && release_placeable(
                old(self)@.sequencer,
            ),
        ensures
            ({
                let v = old(self)@;
                let (pressed, released) = spec_singularize(v.pressed_note, NoteSource::Key(note), false);
                &&& final(self)@.pressed_note == pressed
                &&& if released is Some {
                    &&& (final(self)@.script, r) == spec_release(v.script, v.frame_number, v.sequencer.displayed_instrument)
                    &&& final(self)@.sequencer == spec_record_key_event(v.sequencer, KeyEvent::Release, None, None)
                } else {
                    &&& final(self)@.script == v.script
                    &&& final(self)@.sequencer == v.sequencer
                    &&& r is None
                }
                &&& final(self)@.frame_number == v.frame_number
            }),
            final(self)@.wf(),
    {
        let released = self.notes.singularize_note_release(NoteSource::Key(note), false);
        if released.is_some() {
            let instrument = self.sequencer.displayed_instrument();
            let r = self.release_displayed(instrument);
            self.sequencer.record_release(note);
            r
        } else {
            None
        }
    }

    /// Starts a new project: the song of a new project, every note let go, and the
    /// registry ready for the default instruments to load.
    pub fn clear_song_and_load_default_instruments(&mut self)
        requires
            old(self)@.wf(),
        ensures
            final(self)@ == (EngineView {
                sequencer: spec_load_default(old(self)@.sequencer),
                script: spec_loading_script(),
                ..old(self)@
            }),
            final(self)@.wf(),
    {
        self.sequencer.load_default();
        self.mute_instruments();
        self.script.begin_loading();
        proof {
            let v = self@.script;
            assert forall|c: int, q: int| 0 <= c < v.columns.len() && 0 <= q < v.columns[c].len() implies ((
            #[trigger] v.columns[c][q]).pressed_note matches Some(pn) ==> pn.pressed_frame <= self.frame_number) by {}
        }
    }

    /// Ends the loading of an instruments script: the sequencer gets the identifiers that
    /// it declared, when it declared a full set.
    pub fn apply_instrument_ids(&mut self)
        requires
            old(self)@.wf(),
        ensures
            final(self)@.script == (SynthScriptView { ids: Seq::empty(), params: Seq::empty(), ..old(self)@.script }),
            final(self)@.sequencer == if old(self)@.script.ids.len() == NUM_INSTRUMENTS {
                spec_set_synth_instrument_ids(old(self)@.sequencer, old(self)@.script.ids)
            } else {
                old(self)@.sequencer
            },
            final(self)@.frame_number == old(self)@.frame_number,
            final(self)@.pressed_note == old(self)@.pressed_note,
            final(self)@.wf(),
    {
        let (ids, _params) = self.script.take_instrument_def();
        if ids.len() == NUM_INSTRUMENTS {
            self.sequencer.set_synth_instrument_ids(ids);
        }
    }

    /// Declares an instrument of the loading instruments script (see
    /// `SynthScript::set_instrument_at_column`); returns its slot, or 255 when refused.
    pub fn set_instrument_at_column(
        &mut self,
        id: &str,
        col: i32,
        frames_after_release: i32,
        press: u32,
        release: u32,
        frame: u32,
    ) -> (r: i32)
        requires
            old(self)@.wf(),
        ensures
            instrument_refused(old(self)@.script, id@, col) ==> r == INVALID_INSTRUMENT && final(self)@.script == old(self)@.script,
            !instrument_refused(old(self)@.script, id@, col) ==> {
                &&& r == next_slot(old(self)@.script, col as int)
                &&& final(self)@.script == spec_set_instrument_at_column(
                    old(self)@.script,
                    id@,
                    col as int,
                    frames_after_release,
                    press,
                    release,
                    frame,
                )
            },
            final(self)@ == (EngineView { script: final(self)@.script, ..old(self)@ }),
            final(self)@.wf(),
    {
        let ghost v = self.script@;
        let r = self.script.set_instrument_at_column(id, col, frames_after_release, press, release, frame);
        proof {
            let v2 = self.script@;
            assert forall|c: int, q: int| 0 <= c < v2.columns.len() && 0 <= q < v2.columns[c].len() implies ((
            #[trigger] v2.columns[c][q]).pressed_note matches Some(pn) ==> pn.pressed_frame <= self.frame_number) by {
                if !instrument_refused(v, id@, col) && c == col && q == v.columns[c].len() {
                } else {
                    assert(v2.columns[c][q] == v.columns[c][q]);
                }
            }
        }
        r
    }

    /// Defines a parameter of an instrument of the loading instruments script (see
    /// `SynthScript::define_param`).
    pub fn define_param(
        &mut self,
        instrument: i32,
        param_num: i32,
        name: &str,
        default: i32,
        min: i32,
        max: i32,
        set_param: u32,
    )
        requires
            old(self)@.wf(),
            !param_ignored(name@, instrument, param_num) ==> old(self)@.script.loading() && str_slice(name@, 0, 2) is Some,
        ensures
            param_ignored(name@, instrument, param_num) ==> final(self)@.script == old(self)@.script,
            !param_ignored(name@, instrument, param_num) ==> final(self)@.script == spec_define_param(
                old(self)@.script,
                instrument,
                param_num,
                str_slice(name@, 0, 2)->0,
                default,
                min,
                max,
                set_param,
            ),
            final(self)@ == (EngineView { script: final(self)@.script, ..old(self)@ }),
            final(self)@.wf(),
    {
        let ghost v = self.script@;
        self.script.define_param(instrument, param_num, name, default, min, max, set_param);
        proof {
            let v2 = self.script@;
            assert forall|c: int, q: int| 0 <= c < v2.columns.len() && 0 <= q < v2.columns[c].len() implies ((
            #[trigger] v2.columns[c][q]).pressed_note matches Some(pn) ==> pn.pressed_frame <= self.frame_number) by {
                assert(v2.columns[c][q].pressed_note == v.columns[c][q].pressed_note);
            }
        }
    }

    /// Plays a note on instrument `instrument` at the current frame.
    fn press_displayed(&mut self, instrument: u8, note: u8, p0: i8, p1: i8) -> (r: Option<ScriptCall>)
        requires
            old(self)@.script.wf(),
            pressed_before(old(self)@.script.columns, old(self)@.frame_number),
            note < 128,
        ensures
            (final(self)@.script, r) == spec_press(old(self)@.script, old(self)@.frame_number, instrument, note, p0, p1),
            final(self)@ == (EngineView { script: final(self)@.script, ..old(self)@ }),
            final(self)@.script.wf(),
            pressed_before(final(self)@.script.columns, final(self)@.frame_number),
    {
        let ghost v = self.script@;
        let r = self.script.press_instrument_note(self.frame_number, instrument, note, p0, p1);
        proof {
            lemma_apply_op_keeps_order(v, self.frame_number, ScriptOp::Press(instrument, note, p0, p1));
        }
        r
    }

    /// Lets go of the note of instrument `instrument` at the current frame.
    fn release_displayed(&mut self, instrument: u8) -> (r: Option<ScriptCall>)
        requires
            old(self)@.script.wf(),
            pressed_before(old(self)@.script.columns, old(self)@.frame_number),
        ensures
            (final(self)@.script, r) == spec_release(old(self)@.script, old(self)@.frame_number, instrument),
            final(self)@ == (EngineView { script: final(self)@.script, ..old(self)@ }),
            final(self)@.script.wf(),
            pressed_before(final(self)@.script.columns, final(self)@.frame_number),
    {
        let ghost v = self.script@;
        let r = self.script.release_instrument(self.frame_number, instrument);
        proof {
            lemma_apply_op_keeps_order(v, self.frame_number, ScriptOp::Release(instrument));
        }
        r
    }
}

} // verus!
