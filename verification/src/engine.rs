use vstd::prelude::*;
use crate::step::StepEvent;

verus! {

/// Where the note that the displayed instrument plays came from: a key the user pressed,
/// or the sequencer.
#[derive(Clone, Copy, Debug, PartialEq, Eq, Structural)]
pub enum NoteSource {
    Key(u8),
    Sequencer(u8),
}

/// The note that the displayed instrument plays. Instruments play one note at a time, so
/// a release only lets go of the note that was pressed last.
#[derive(Clone, Copy, Debug, PartialEq, Eq, Structural)]
pub struct NoteTracker {
    pub pressed_note: Option<NoteSource>,
}

/// The note number of a source.
pub open spec fn source_note(s: NoteSource) -> u8 {
    match s {
        NoteSource::Key(n) => n,
        NoteSource::Sequencer(n) => n,
    }
}

/// The pressed note and the note to release after a press or release: a press replaces
/// the pressed note and releases the one it replaces. A released key releases the
/// pressed note only when it is that key; a key release never releases a sequenced
/// note, and a sequenced release never releases a pressed key; a sequenced release
/// releases a sequenced note but keeps it recorded as pressed.
pub open spec fn spec_singularize(pressed: Option<NoteSource>, source: NoteSource, is_press: bool) -> (Option<NoteSource>, Option<u8>) {
    if is_press {
        (Some(source), match pressed {
            Some(p) => Some(source_note(p)),
            None => None,
        })
    } else {
        match (pressed, source) {
            (Some(NoteSource::Key(p)), NoteSource::Key(r)) => if p == r {
                (None, Some(p))
            } else {
                (pressed, None)
            },
            (_, NoteSource::Key(_)) => (pressed, None),
            (Some(NoteSource::Key(_)), _) => (pressed, None),
            (_, _) => (pressed, match pressed {
                Some(p) => Some(source_note(p)),
                None => None,
            }),
        }
    }
}

impl NoteTracker {
    pub fn new() -> (r: NoteTracker)
        ensures
            r.pressed_note is None,
    {
        NoteTracker { pressed_note: None }
    }

    /// Records a press or release of the displayed instrument and returns the note to
    /// release, if any (see `spec_singularize`).
    pub fn singularize_note_release(&mut self, source: NoteSource, is_press: bool) -> (r: Option<u8>)
        ensures
            (final(self).pressed_note, r) == spec_singularize(old(self).pressed_note, source, is_press),
    {
        let note_to_release = if is_press {
            let prev = self.pressed_note;
            self.pressed_note = Some(source);
            prev
        } else {
            match (self.pressed_note, source) {
                (Some(NoteSource::Key(pressed_note)), NoteSource::Key(released_note)) => {
                    if pressed_note == released_note {
                        let prev = self.pressed_note;
                        self.pressed_note = None;
                        prev
                    } else {
                        None
                    }
                },
                (_, NoteSource::Key(_)) => None,
                (Some(NoteSource::Key(_)), _) => None,
                (_, _) => self.pressed_note,
            }
        };
        match note_to_release {
            Some(NoteSource::Key(note)) => Some(note),
            Some(NoteSource::Sequencer(note)) => Some(note),
            None => None,
        }
    }
}

/// Releasing the key that was pressed last lets go of it; releasing another key does
/// nothing.
pub proof fn lemma_key_release_matches_press(pressed: u8, released: u8)
    ensures
        spec_singularize(Some(NoteSource::Key(pressed)), NoteSource::Key(released), false) == if pressed == released {
            (None::<NoteSource>, Some(pressed))
        } else {
            (Some(NoteSource::Key(pressed)), None::<u8>)
        },
{
}

/// Whatever note was pressed before, releasing the key just pressed lets go of it and
/// leaves no note pressed.
pub proof fn lemma_press_then_release_same_key(pressed: Option<NoteSource>, note: u8)
    ensures
        spec_singularize(spec_singularize(pressed, NoteSource::Key(note), true).0, NoteSource::Key(note), false) == (
        None::<NoteSource>,
        Some(note),
        ),
{
}

/// What the sound engine asks of the instruments script for a sequencer event.
#[derive(Clone, Copy, Debug, PartialEq, Eq, Structural)]
pub enum ScriptOp {
    Press(u8, u8, i8, i8),
    Release(u8),
    SetParam(u8, u8, i8),
}

/// The script operations and the note tracker after one sequencer event of instrument
/// `instrument`: a press is played, a release is sent unless the displayed instrument's
/// last note is not to be released, and a parameter is set. The displayed instrument's
/// presses and releases go through the note tracker.
pub open spec fn spec_dispatch(pressed: Option<NoteSource>, displayed: u8, instrument: u8, event: StepEvent) -> (Option<NoteSource>, Seq<ScriptOp>) {
    let selected = instrument == displayed;
    match event {
        StepEvent::Press(note, p0, p1) => (
            if selected { spec_singularize(pressed, NoteSource::Sequencer(note), true).0 } else { pressed },
            seq![ScriptOp::Press(instrument, note, p0, p1)],
        ),
        StepEvent::Release => {
            let (np, rel) = if selected {
                spec_singularize(pressed, NoteSource::Sequencer(0), false)
            } else {
                (pressed, None)
            };
            (np, if !selected || rel is Some { seq![ScriptOp::Release(instrument)] } else { Seq::empty() })
        },
        StepEvent::SetParam(n, v) => (pressed, seq![ScriptOp::SetParam(instrument, n, v)]),
    }
}

/// The script operations of the first `n` sequencer events, in order, and the note tracker after them.
pub open spec fn dispatch_upto(pressed: Option<NoteSource>, displayed: u8, events: Seq<(u8, StepEvent)>, n: int) -> (Option<NoteSource>, Seq<ScriptOp>)
    decreases n,
{
    if n <= 0 {
        (pressed, Seq::empty())
    } else {
        let (p1, ops1) = dispatch_upto(pressed, displayed, events, n - 1);
        let (p2, ops2) = spec_dispatch(p1, displayed, events[n - 1].0, events[n - 1].1);
        (p2, ops1 + ops2)
    }
}

/// The script operations for the events that the sequencer played on a frame (see
/// `spec_dispatch`).
pub fn send_note_events_to_synth(tracker: &mut NoteTracker, displayed: u8, note_events: &Vec<(u8, StepEvent)>) -> (r: Vec<ScriptOp>)
    ensures
        (final(tracker).pressed_note, r@) == dispatch_upto(old(tracker).pressed_note, displayed, note_events@, note_events@.len() as int),
{
    let mut ops: Vec<ScriptOp> = Vec::new();
    let mut i: usize = 0;
    while i < note_events.len()
        invariant
            i <= note_events@.len(),
            (tracker.pressed_note, ops@) == dispatch_upto(old(tracker).pressed_note, displayed, note_events@, i as int),
        decreases note_events@.len() - i,
    {
        let (instrument, event) = note_events[i];
        let selected = instrument == displayed;
        let ghost before = ops@;
        match event {
            StepEvent::Press(note, p0, p1) => {
                ops.push(ScriptOp::Press(instrument, note, p0, p1));
                if selected {
                    tracker.singularize_note_release(NoteSource::Sequencer(note), true);
                }
            },
            StepEvent::Release => {
                let to_release = if selected {
                    tracker.singularize_note_release(NoteSource::Sequencer(0), false)
                } else {
                    None
                };
                if !selected || to_release.is_some() {
                    ops.push(ScriptOp::Release(instrument));
                }
            },
            StepEvent::SetParam(n, v) => {
                ops.push(ScriptOp::SetParam(instrument, n, v));
            },
        }
        proof {
            let (_, e) = spec_dispatch(
                dispatch_upto(old(tracker).pressed_note, displayed, note_events@, i as int).0,
                displayed,
                instrument,
                event,
            );
            assert(ops@ =~= before + e);
        }
        i = i + 1;
    }
    ops
}

} // verus!
