use chiptrack::engine::{send_note_events_to_synth, NoteSource, NoteTracker, ScriptOp};
use chiptrack::step::StepEvent;
use chiptrack::synth_script::{note_to_freq, ScriptCall, SynthScript, INVALID_INSTRUMENT};

#[test]
fn instruments_are_declared_by_column() {
    let mut sc = SynthScript::new();
    assert_eq!(sc.set_instrument_at_column("lead", 0, 0, 1, 2, 3), INVALID_INSTRUMENT);
    sc.begin_loading();
    assert_eq!(sc.set_instrument_at_column("lead", 0, 2, 1, 2, 3), 0);
    assert_eq!(sc.set_instrument_at_column("bass", 0, 0, 4, 0, 5), 4);
    assert_eq!(sc.set_instrument_at_column("drum", 3, 0, 6, 0, 0), 3);
    assert_eq!(sc.set_instrument_at_column("lead", 1, 0, 1, 1, 1), INVALID_INSTRUMENT);
    assert_eq!(sc.set_instrument_at_column("x", 4, 0, 1, 1, 1), INVALID_INSTRUMENT);
    assert_eq!(sc.set_instrument_at_column("", 1, 0, 1, 1, 1), INVALID_INSTRUMENT);
    sc.define_param(0, 1, "Volume", 5, 0, 300, 9);
    sc.define_param(0, 2, "Bad", 5, 0, 15, 9);
    assert_eq!(sc.set_instrument_param(0, 1, -3), Some(ScriptCall::SetParam(9, -3)));
    assert_eq!(sc.set_instrument_param(0, 0, -3), None);
    assert!(sc.instrument_has_set_param_fn(0, 1));
    assert!(!sc.instrument_has_set_param_fn(0, 0));
    let (ids, params) = sc.take_instrument_def();
    assert_eq!(ids[0], "lead");
    assert_eq!(ids[4], "bass");
    assert_eq!(ids[3], "drum");
    assert_eq!(ids[1], "");
    let def = params[0][1].as_ref().unwrap();
    assert_eq!(def.name, "Vo");
    assert_eq!(def.default, 5);
    assert_eq!(def.max, 44);
    assert!(params[0][0].is_none());
}

#[test]
fn press_frames_and_release_countdown() {
    let mut sc = SynthScript::new();
    sc.begin_loading();
    assert_eq!(sc.set_instrument_at_column("lead", 0, 2, 1, 2, 3), 0);
    assert_eq!(note_to_freq(69), 112640);
    assert_eq!(sc.press_instrument_note(10, 0, 69, 1, 2), Some(ScriptCall::Press(1, 112640, 69, 1, 2)));
    assert_eq!(sc.press_instrument_note(10, 5, 69, 1, 2), None);
    assert_eq!(sc.advance_frame(11), vec![ScriptCall::Frame(3, 112640, 69, 1)]);
    assert_eq!(sc.release_instrument(12, 0), Some(ScriptCall::Release(2, 112640, 69, 2)));
    assert_eq!(sc.advance_frame(13), vec![ScriptCall::Frame(3, 112640, 69, 3)]);
    assert_eq!(sc.advance_frame(14), vec![ScriptCall::Frame(3, 112640, 69, 4)]);
    assert_eq!(sc.advance_frame(15), vec![]);
    assert_eq!(sc.release_instrument(16, 0), None);
}

#[test]
fn releasing_all_instruments_stops_frames() {
    let mut sc = SynthScript::new();
    sc.begin_loading();
    sc.set_instrument_at_column("lead", 1, 0, 0, 0, 7);
    sc.press_instrument_note(0, 1, 60, 0, 0);
    assert_eq!(sc.advance_frame(1).len(), 1);
    sc.release_instruments();
    assert!(sc.advance_frame(2).is_empty());
}

#[test]
fn live_key_release_must_match() {
    let mut t = NoteTracker::new();
    assert_eq!(t.singularize_note_release(NoteSource::Key(60), true), None);
    assert_eq!(t.singularize_note_release(NoteSource::Key(62), true), Some(60));
    assert_eq!(t.singularize_note_release(NoteSource::Key(60), false), None);
    assert_eq!(t.singularize_note_release(NoteSource::Sequencer(0), false), None);
    assert_eq!(t.singularize_note_release(NoteSource::Key(62), false), Some(62));
    assert_eq!(t.pressed_note, None);
}

#[test]
fn sequenced_events_become_script_operations() {
    let mut t = NoteTracker::new();
    let events = vec![
        (0u8, StepEvent::Press(60, 1, 2)),
        (1u8, StepEvent::Release),
        (0u8, StepEvent::SetParam(1, 5)),
        (0u8, StepEvent::Release),
    ];
    let ops = send_note_events_to_synth(&mut t, 0, &events);
    assert_eq!(
        ops,
        vec![
            ScriptOp::Press(0, 60, 1, 2),
            ScriptOp::Release(1),
            ScriptOp::SetParam(0, 1, 5),
            ScriptOp::Release(0),
        ]
    );
    assert_eq!(t.pressed_note, Some(NoteSource::Sequencer(60)));
    t.singularize_note_release(NoteSource::Key(50), true);
    let ops = send_note_events_to_synth(&mut t, 0, &vec![(0u8, StepEvent::Release)]);
    assert!(ops.is_empty());
}
