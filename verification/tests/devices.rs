use chiptrack::chip::{
    gba_to_gb_addr, mute_register_writes, sound_register_writes, sync_pulse_due, wave_table_writes, Channel,
    PulseState, SyncPulse,
};
use chiptrack::keypad::{
    millis_to_nanos, to_dec, to_hex, KeyRepeat, MillisClock, PadEvent, KEYS_ALL, KEY_A, KEY_B, KEY_DOWN, KEY_L,
    KEY_LEFT, KEY_R, KEY_RIGHT, KEY_SELECT, KEY_START, KEY_UP,
};
use chiptrack::midi::{midi_note_action, NoteAction};

#[test]
fn gba_registers_map_to_game_boy_registers() {
    assert_eq!(gba_to_gb_addr(0x4000062), (Some(0xFF11), Some(0xFF12)));
    assert_eq!(gba_to_gb_addr(0x4000070), (Some(0xFF1A), None));
    assert_eq!(gba_to_gb_addr(0x4000066), (None, None));
    assert_eq!(sound_register_writes(0x4000062, 0x1234), vec![(0xFF11, 0x34), (0xFF12, 0x12)]);
    assert_eq!(sound_register_writes(0x4000060, 0x1234), vec![(0xFF10, 0x34)]);
    assert!(sound_register_writes(0x4000000, 7).is_empty());
}

#[test]
fn channels_and_wave_table() {
    assert_eq!(Channel::Wave.base_address(), 0xff1a);
    assert_eq!(Channel::Noise.envelope_address(), 0xff21);
    assert_eq!(mute_register_writes(), vec![(0xff12, 0), (0xff17, 0), (0xff1c, 0), (0xff21, 0)]);
    let table: Vec<u8> = (0..20).collect();
    let writes = wave_table_writes(&table);
    assert_eq!(writes.len(), 16);
    assert_eq!(writes[0], (0xff30, 0));
    assert_eq!(writes[15], (0xff3f, 15));
}

#[test]
fn sync_pulse_shape() {
    assert!(sync_pulse_due(Some(4)));
    assert!(!sync_pulse_due(Some(3)));
    assert!(!sync_pulse_due(None));
    let mut p = SyncPulse::new(true, 44100, 300, 2);
    assert_eq!(p.period, 147);
    assert_eq!(p.state, PulseState::Up(147, 2));
    p.pulse();
    let samples: Vec<i8> = (0..(3 * 2 * 148 + 2)).map(|_| p.next_sample().unwrap()).collect();
    assert!(samples[..148].iter().all(|s| *s == 1));
    assert!(samples[148..296].iter().all(|s| *s == -1));
    assert_eq!(samples[296], 1);
    assert_eq!(samples[3 * 2 * 148 - 1], -1);
    assert_eq!(samples[3 * 2 * 148], 0);
    assert_eq!(samples[3 * 2 * 148 + 1], 0);
    let mut off = SyncPulse::new(false, 44100, 300, 2);
    off.pulse();
    assert_eq!(off.next_sample(), None);
}

#[test]
fn hex_and_decimal_digits() {
    assert_eq!(to_hex(0xAB), [b'A', b'B']);
    assert_eq!(to_hex(0x09), [b'0', b'9']);
    assert_eq!(to_dec(42), [b'4', b'2']);
    assert_eq!(to_dec(7), [b'0', b'7']);
}

#[test]
fn keypad_presses_releases_and_repeats() {
    let mut k = KeyRepeat::new();
    let all = [KEY_A, KEY_B, KEY_SELECT, KEY_START, KEY_RIGHT, KEY_LEFT, KEY_UP, KEY_DOWN, KEY_R, KEY_L];
    let events = k.process_keys(KEYS_ALL);
    assert_eq!(events, all.iter().map(|m| PadEvent::Released(*m, false)).collect::<Vec<_>>());
    assert_eq!(k.frames_until_repeat, None);
    let right_down = KEYS_ALL & !KEY_RIGHT;
    assert_eq!(k.process_keys(right_down), vec![PadEvent::Pressed(KEY_RIGHT, false)]);
    assert_eq!(k.frames_until_repeat, Some(10));
    assert!(k.process_keys(right_down).is_empty());
    for _ in 0..10 {
        k.vblank();
    }
    assert_eq!(k.process_keys(right_down), vec![PadEvent::Pressed(KEY_RIGHT, false)]);
    assert_eq!(k.frames_until_repeat, Some(2));
    let with_shift = right_down & !KEY_R & !KEY_A;
    assert_eq!(
        k.process_keys(with_shift),
        vec![PadEvent::Pressed(KEY_A, true), PadEvent::Pressed(KEY_R, true)]
    );
    let events = k.process_keys(KEYS_ALL);
    assert_eq!(events.len(), 3);
    assert_eq!(k.frames_until_repeat, None);
}

#[test]
fn millisecond_clock_wraps() {
    let mut c = MillisClock::new();
    assert_eq!(c.millis(100), 100);
    assert_eq!(c.millis(50), 65585);
    assert_eq!(millis_to_nanos(3), 3_000_000);
}

#[test]
fn midi_messages_press_and_release() {
    assert_eq!(midi_note_action(&[0x90, 60, 100]), Some(NoteAction::Press(60)));
    assert_eq!(midi_note_action(&[0x91, 61, 0]), Some(NoteAction::Release(61)));
    assert_eq!(midi_note_action(&[0x80, 62, 64]), Some(NoteAction::Release(62)));
    assert_eq!(midi_note_action(&[0xB0, 7, 100]), None);
    assert_eq!(midi_note_action(&[]), None);
    assert_eq!(midi_note_action(&[0x9F, 60, 100, 7]), Some(NoteAction::Press(60)));
    assert_eq!(midi_note_action(&[0x90, 200, 5]), None);
    assert_eq!(midi_note_action(&[0x90, 60, 200]), None);
    assert_eq!(midi_note_action(&[0x90, 60]), None);
    assert_eq!(midi_note_action(&[60, 100, 7]), None);
}

#[test]
fn pulse_samples_by_position() {
    // A period of 2 gives halves of 3 samples; one more loop gives two periods.
    let mut p = SyncPulse::new(true, 4, 2, 1);
    p.pulse();
    let samples: Vec<Option<i8>> = (0..14).map(|_| p.next_sample()).collect();
    let expected: Vec<Option<i8>> = [1, 1, 1, -1, -1, -1, 1, 1, 1, -1, -1, -1, 0, 0].iter().map(|s| Some(*s)).collect();
    assert_eq!(samples, expected);
}
