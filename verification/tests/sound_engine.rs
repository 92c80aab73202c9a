use chiptrack::synth_script::{note_to_freq, ScriptCall, INVALID_INSTRUMENT};
use chiptrack::sound_engine::SoundEngine;

fn loaded_engine() -> SoundEngine {
    let mut engine = SoundEngine::new();
    assert!(!engine.is_ready());
    engine.clear_song_and_load_default_instruments();
    assert_eq!(engine.set_instrument_at_column("lead", 0, 0, 1, 2, 3), 0);
    assert_eq!(engine.set_instrument_at_column("pad", 1, 3, 4, 5, 6), 1);
    assert_eq!(engine.set_instrument_at_column("lead", 2, 0, 1, 2, 3), INVALID_INSTRUMENT);
    engine.define_param(1, 0, "Attack", 0, 0, 15, 7);
    engine.apply_instrument_ids();
    assert!(engine.is_ready());
    engine
}

#[test]
fn played_notes_go_to_the_displayed_instrument() {
    let mut engine = loaded_engine();
    assert_eq!(engine.press_note(60), Some(ScriptCall::Press(1, 66977, 60, 0, 0)));
    let (step, calls) = engine.advance_frame();
    assert_eq!(step, None);
    assert_eq!(calls, vec![ScriptCall::Frame(3, 66977, 60, 0)]);
    let (_, calls) = engine.advance_frame();
    assert_eq!(calls, vec![ScriptCall::Frame(3, 66977, 60, 1)]);
    // Another key than the one pressed last releases nothing.
    assert_eq!(engine.release_note(61), None);
    assert_eq!(engine.release_note(60), Some(ScriptCall::Release(2, 66977, 60, 2)));
    let (_, calls) = engine.advance_frame();
    assert!(calls.is_empty());
    assert_eq!(engine.release_note(60), None);
}

#[test]
fn a_newer_press_takes_over_the_release() {
    let mut engine = loaded_engine();
    engine.press_note(60);
    engine.press_note(64);
    assert_eq!(engine.release_note(60), None);
    assert!(engine.release_note(64).is_some());
}

#[test]
fn parameter_changes_use_the_set_param_function() {
    let mut engine = loaded_engine();
    // The lead has no function for its parameters: a change plays the clipboard note.
    let call = engine.cycle_instrument_param(0, true);
    assert!(matches!(call, Some(ScriptCall::Press(1, _, _, 1, 0))));
    assert!(matches!(engine.cycle_instrument_param_end(), Some(ScriptCall::Release(2, _, _, 0))));
    engine.display_instrument(1);
    assert_eq!(engine.sequencer().displayed_instrument(), 1);
    assert_eq!(engine.cycle_instrument_param(0, false), Some(ScriptCall::SetParam(7, -1)));
    assert_eq!(engine.cycle_instrument_param(0, false), Some(ScriptCall::SetParam(7, -2)));
    assert!(matches!(engine.cycle_instrument_param_start(), Some(ScriptCall::Press(4, _, _, -2, 0))));
    assert!(matches!(engine.cycle_instrument_param_end(), Some(ScriptCall::Release(5, _, _, 0))));
    // The pad keeps playing three frames after its release.
    for frames_since_press in 0..3 {
        let (_, calls) = engine.advance_frame();
        assert_eq!(calls.len(), 1);
        assert!(matches!(calls[0], ScriptCall::Frame(6, _, _, f) if f == frames_since_press));
    }
    let (_, calls) = engine.advance_frame();
    assert!(calls.is_empty());
}

#[test]
fn step_edits_preview_without_playback() {
    let mut engine = loaded_engine();
    let clipboard = engine.sequencer().clipboard_note();
    let start = engine.cycle_step_note_start(2);
    assert_eq!(start, Some(ScriptCall::Press(1, note_to_freq(clipboard), clipboard as i32, 0, 0)));
    let up = clipboard + 1;
    assert_eq!(engine.cycle_step_note(2, true, false), Some(ScriptCall::Press(1, note_to_freq(up), up as i32, 0, 0)));
    assert!(matches!(engine.cycle_step_note_end(2), Some(ScriptCall::Release(2, _, _, _))));
    assert_eq!(engine.sequencer().clipboard_note(), up);
    // Empty steps stay empty; the edited one moves up an octave.
    engine.cycle_step_range_note(0, 3, true, true);
    let octave_up = up + 12;
    assert_eq!(
        engine.cycle_step_note_start(2),
        Some(ScriptCall::Press(1, note_to_freq(octave_up), octave_up as i32, 0, 0))
    );
    assert_eq!(engine.sequencer().clipboard_note(), up);
    assert_eq!(
        engine.cycle_step_param_start(2, 1),
        Some(ScriptCall::Press(1, note_to_freq(octave_up), octave_up as i32, 0, 0))
    );
    assert_eq!(
        engine.cycle_step_param(2, 1, true, false),
        Some(ScriptCall::Press(1, note_to_freq(octave_up), octave_up as i32, 0, 1))
    );
    engine.cycle_step_range_param(0, 15, 1, true, false);
    assert_eq!(
        engine.cycle_step_param_start(2, 1),
        Some(ScriptCall::Press(1, note_to_freq(octave_up), octave_up as i32, 0, 2))
    );
    assert!(engine.cycle_step_param_end(2, 1).is_some());
}

#[test]
fn stopping_playback_lets_go_of_notes() {
    let mut engine = loaded_engine();
    engine.set_playing(true, false);
    assert!(engine.sequencer().playing());
    engine.set_playing(false, false);
    engine.press_note(60);
    engine.mute_instruments();
    let (_, calls) = engine.advance_frame();
    assert!(calls.is_empty());
}

#[test]
fn playback_sends_sequenced_notes_to_the_script() {
    let mut engine = loaded_engine();
    engine.sequencer_mut().toggle_step(0);
    engine.set_playing(true, false);
    let (step, calls) = engine.advance_frame();
    assert_eq!(step, Some(0));
    assert_eq!(calls, vec![ScriptCall::Press(1, 66977, 60, 0, 0), ScriptCall::Frame(3, 66977, 60, 0)]);
    for frame in 1..7 {
        let (step, calls) = engine.advance_frame();
        assert_eq!(step, None);
        assert_eq!(calls, vec![ScriptCall::Frame(3, 66977, 60, frame)]);
    }
    let (step, calls) = engine.advance_frame();
    assert_eq!(step, Some(1));
    assert_eq!(calls, vec![ScriptCall::Release(2, 66977, 60, 7)]);
}

#[test]
fn frames_with_notes_above_the_frequency_table_are_reported() {
    let mut engine = loaded_engine();
    engine.sequencer_mut().toggle_step(0);
    engine.set_playing(true, false);
    assert!(engine.next_frame_playable());
    engine.set_playing(false, false);
    let mut song = String::from("## Song\n\n- [Pattern 1](#pattern-1)\n\n## Pattern 1\n\n|lead|\n|---|\n|B#9|\n");
    for _ in 0..15 {
        song.push_str("|   |\n");
    }
    song.push_str("\n## Settings\n\n- InstrumentsFile: x.wat\n");
    engine.sequencer_mut().load_str(&song).unwrap();
    let mut ids = vec![String::new(); 64];
    ids[0] = "lead".to_string();
    engine.sequencer_mut().set_synth_instrument_ids(ids);
    assert_eq!(engine.sequencer().displayed_step(0).note, 132);
    engine.set_playing(true, false);
    assert!(!engine.next_frame_playable());
}
