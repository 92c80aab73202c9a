use chiptrack::sequencer::{OnEmpty, Sequencer};
use chiptrack::step::StepEvent;

fn loaded() -> Sequencer {
    let mut s = Sequencer::new();
    s.load_default();
    s
}

#[test]
fn toggle_step_presses_then_cuts() {
    let mut s = loaded();
    s.toggle_step(0);
    let st = s.displayed_step(0);
    assert_eq!(st.note, 60);
    assert!(st.release);
    assert_eq!(st.param0, Some(0));
    assert_eq!(st.param1, Some(0));
    s.toggle_step(0);
    assert!(s.displayed_step(0).is_empty());
}

#[test]
fn playback_presses_then_releases() {
    let mut s = loaded();
    s.toggle_step(0);
    s.set_playing(true, false);
    let (step, events) = s.advance_frame();
    assert_eq!(step, Some(0));
    assert_eq!(events, vec![(0u8, StepEvent::Press(60, 0, 0))]);
    for _ in 0..6 {
        let (step, events) = s.advance_frame();
        assert_eq!(step, None);
        assert!(events.is_empty());
    }
    let (step, events) = s.advance_frame();
    assert_eq!(step, Some(1));
    assert_eq!(events, vec![(0u8, StepEvent::Release)]);
}

#[test]
fn stopped_sequencer_plays_nothing() {
    let mut s = loaded();
    s.toggle_step(0);
    let (step, events) = s.advance_frame();
    assert_eq!(step, None);
    assert!(events.is_empty());
}

#[test]
fn muted_instrument_is_silent() {
    let mut s = loaded();
    s.toggle_step(0);
    s.toggle_mute_instrument(0);
    s.set_playing(true, false);
    let (step, events) = s.advance_frame();
    assert_eq!(step, Some(0));
    assert!(events.is_empty());
    s.toggle_mute_instrument(0);
    s.set_playing(true, false);
    let (_, events) = s.advance_frame();
    assert_eq!(events.len(), 1);
}

#[test]
fn record_press_while_stopped() {
    let mut s = loaded();
    let params = s.record_press(62);
    assert_eq!(params, (0, 0));
    let st = s.displayed_step(0);
    assert_eq!(st.note, 62);
    assert!(st.release);
    assert_eq!(st.param0, None);
    assert_eq!(st.param1, None);
    assert_eq!(s.clipboard_note(), 62);
}

#[test]
fn cut_and_paste_steps() {
    let mut s = loaded();
    s.toggle_step(0);
    s.cycle_step_note(0, Some(true), false, OnEmpty::EmptyOnEmpty);
    s.toggle_step(1);
    s.cut_step_range_note(0, 1);
    assert!(s.displayed_step(0).is_empty());
    assert!(s.displayed_step(1).is_empty());
    s.paste_step_range_note(4);
    assert_eq!(s.displayed_step(4).note, 61);
    assert_eq!(s.displayed_step(5).note, 60);
    s.paste_step_range_note(15);
    assert_eq!(s.displayed_step(15).note, 61);
    assert_eq!(s.displayed_step(0).note, 60);
}

#[test]
fn copy_and_paste_in_place_changes_nothing() {
    let mut s = loaded();
    s.toggle_step(2);
    s.toggle_step(3);
    let before: Vec<_> = (0..16).map(|i| s.displayed_step(i)).collect();
    s.copy_step_range_note(1, 4);
    s.paste_step_range_note(1);
    let after: Vec<_> = (0..16).map(|i| s.displayed_step(i)).collect();
    assert_eq!(before, after);
}

#[test]
fn cycle_step_note_by_octave() {
    let mut s = loaded();
    s.toggle_step(0);
    assert_eq!(s.cycle_step_note(0, Some(true), true, OnEmpty::EmptyOnEmpty), (72, 0, 0));
    assert_eq!(s.displayed_step(0).note, 72);
    assert_eq!(s.cycle_step_note(0, Some(false), false, OnEmpty::EmptyOnEmpty), (71, 0, 0));
    assert_eq!(s.cycle_step_note(1, Some(true), false, OnEmpty::EmptyOnEmpty), (0, 0, 0));
    assert!(s.displayed_step(1).is_empty());
}

#[test]
fn cycle_step_param_wraps_by_sixteen() {
    let mut s = loaded();
    s.toggle_step(0);
    assert_eq!(s.cycle_step_param(0, 1, Some(false), true, OnEmpty::EmptyOnEmpty), (60, 0, -16));
    assert_eq!(s.displayed_step(0).param1, Some(-16));
    assert_eq!(s.cycle_step_param(0, 0, Some(true), false, OnEmpty::EmptyOnEmpty), (60, 1, -16));
}

#[test]
fn instrument_param_cycles_within_i8() {
    let mut s = loaded();
    assert_eq!(s.cycle_instrument_param(0, true), (1, 0));
    assert_eq!(s.cycle_instrument_param(1, false), (1, -1));
    assert_eq!(s.displayed_instrument_params(), (1, -1));
}

#[test]
fn step_release_toggles() {
    let mut s = loaded();
    s.toggle_step(0);
    assert!(s.displayed_step(0).release);
    s.toggle_step_release(0);
    assert!(!s.displayed_step(0).release);
    s.toggle_step_release(0);
    assert!(s.displayed_step(0).release);
}

#[test]
fn song_pattern_cycling_and_unused_patterns() {
    let mut s = loaded();
    s.toggle_step(0);
    assert_eq!(s.find_first_unused_pattern_idx(), Some(1));
    s.cycle_song_pattern(true);
    assert_eq!(s.song().song_patterns, vec![1]);
    s.cycle_song_pattern(false);
    assert_eq!(s.song().song_patterns, vec![0]);
    s.cycle_song_pattern(false);
    assert_eq!(s.song().song_patterns, vec![0]);
}

#[test]
fn selecting_past_the_end_adds_a_stub() {
    let mut s = loaded();
    s.toggle_step(0);
    s.display_song_pattern(1);
    assert_eq!(s.song().song_patterns, vec![0, 1]);
    s.display_song_pattern(0);
    assert_eq!(s.song().song_patterns, vec![0]);
}

#[test]
fn next_step_wraps_through_song_patterns() {
    assert_eq!(Sequencer::next_step_and_pattern_and_song_pattern(true, 15, 2, 3), (0, 0));
    assert_eq!(Sequencer::next_step_and_pattern_and_song_pattern(false, 0, 0, 3), (15, 2));
    assert_eq!(Sequencer::next_step_and_pattern_and_song_pattern(true, 3, 1, 3), (4, 1));
}

#[test]
fn cycle_instrument_wraps_columns_and_clamps_rows() {
    let mut s = loaded();
    s.cycle_instrument(-1, 0);
    assert_eq!(s.displayed_instrument(), 3);
    s.cycle_instrument(0, -1);
    assert_eq!(s.displayed_instrument(), 3);
    s.cycle_instrument(1, 20);
    assert_eq!(s.displayed_instrument(), 60);
}

#[test]
fn cut_single_note_fills_clipboards() {
    let mut s = loaded();
    s.toggle_step(0);
    s.cycle_step_note(0, Some(true), true, OnEmpty::EmptyOnEmpty);
    s.cut_step_single_note(0);
    assert!(s.displayed_step(0).is_empty());
    assert_eq!(s.clipboard_note(), 72);
    s.paste_step_range_note(3);
    assert_eq!(s.displayed_step(3).note, 72);
}

#[test]
fn step_editor_shows_the_other_instruments_in_slot_order() {
    let mut s = loaded();
    let ids: Vec<String> = (0..64).map(|i| format!("i{}", i)).collect();
    s.set_synth_instrument_ids(ids);
    s.toggle_step(0);
    s.display_instrument(5);
    s.toggle_step(3);
    s.display_instrument(0);
    let d = s.steps_display();
    assert_eq!(d.steps.len(), 16);
    assert_eq!(d.steps[0].note, 60);
    assert!(d.steps[1].is_empty());
    assert_eq!(d.active_step, 0);
    assert_eq!(d.instruments, vec![1]);
    s.display_instrument(4);
    let d = s.steps_display();
    assert!(d.steps.iter().all(|st| st.is_empty()));
    assert_eq!(d.instruments, vec![1, 0]);
}

#[test]
fn first_unused_pattern_is_the_lowest_free_one() {
    let mut song = chiptrack::sequencer::SequencerSong::new();
    song.song_patterns = vec![0, 5];
    assert_eq!(song.first_unused_pattern(), Some(1));
    assert!(song.plays_pattern(5));
    assert!(!song.plays_pattern(1));
    song.song_patterns = (0..64).collect();
    assert_eq!(song.first_unused_pattern(), None);
    let mut s = loaded();
    // The default song plays pattern 0 only.
    assert_eq!(s.find_first_unused_pattern_idx(), Some(1));
    s.clone_displayed_song_pattern();
    assert_eq!(s.find_first_unused_pattern_idx(), Some(0));
}

#[test]
fn emptied_instruments_leave_the_pattern_and_others_keep_their_order() {
    let mut p = chiptrack::pattern::Pattern::new();
    p.set_step_events(0, &"a".to_string(), 0, Some(Some(60)), Some(true), None);
    p.set_step_events(4, &"b".to_string(), 1, Some(Some(62)), None, None);
    p.set_step_events(8, &"c".to_string(), 2, Some(Some(64)), None, None);
    let ids = |p: &chiptrack::pattern::Pattern| p.instruments.iter().map(|i| i.id.clone()).collect::<Vec<_>>();
    assert_eq!(ids(&p), vec!["a", "b", "c"]);
    p.set_step_events(4, &"b".to_string(), 1, Some(None), Some(false), Some((None, None)));
    assert_eq!(ids(&p), vec!["a", "c"]);
    p.set_step_events(12, &"d".to_string(), 3, Some(None), None, None);
    assert_eq!(ids(&p), vec!["a", "c"]);
    p.set_step_events(12, &"d".to_string(), 3, None, None, Some((Some(1), None)));
    assert_eq!(ids(&p), vec!["a", "c", "d"]);
}
