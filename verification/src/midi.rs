use vstd::prelude::*;
use midly::live::LiveEvent;
use midly::MidiMessage;

verus! {

/// The note messages of a MIDI event, with the key and the velocity.
#[derive(Clone, Copy, Debug, PartialEq, Eq, Structural)]
pub enum MidiNoteMessage {
    NoteOn(u8, u8),
    NoteOff(u8, u8),
    Other,
}

/// The note message of the bytes of a live MIDI event: a status byte `0x8n` (note off) or
/// `0x9n` (note on), on any channel `n`, followed by a key and a velocity below 128; later
/// bytes are not read. Other bytes hold no note message.
pub open spec fn note_message(bytes: Seq<u8>) -> Option<MidiNoteMessage> {
    if bytes.len() >= 3 && 0x80 <= bytes[0] < 0xA0 && bytes[1] < 128 && bytes[2] < 128 {
        Some(
            if bytes[0] < 0x90 {
                MidiNoteMessage::NoteOff(bytes[1], bytes[2])
            } else {
                MidiNoteMessage::NoteOn(bytes[1], bytes[2])
            },
        )
    } else {
        None
    }
}

/// Reads a live MIDI event with `midly::live::LiveEvent::parse`, keeping its note on and
/// note off messages. `midly` reads a note message exactly as `note_message` says; for
/// other bytes it either fails (`None`) or reads another kind of event (`Other`), which
/// is not stated further.
#[verifier::external_body]
fn parse_midi_message(message: &[u8]) -> (r: Option<MidiNoteMessage>)
    ensures
        note_message(message@) is Some ==> r == note_message(message@),
        note_message(message@) is None ==> r is None || r == Some(MidiNoteMessage::Other),
{
    match LiveEvent::parse(message).ok()? {
        LiveEvent::Midi { message: MidiMessage::NoteOn { key, vel }, .. } => {
            Some(MidiNoteMessage::NoteOn(key.as_int(), vel.as_int()))
        },
        LiveEvent::Midi { message: MidiMessage::NoteOff { key, vel }, .. } => {
            Some(MidiNoteMessage::NoteOff(key.as_int(), vel.as_int()))
        },
        _ => Some(MidiNoteMessage::Other),
    }
}

/// What a played MIDI key does to the instrument.
#[derive(Clone, Copy, Debug, PartialEq, Eq, Structural)]
pub enum NoteAction {
    Press(u8),
    Release(u8),
}

/// The action of a MIDI message: a note on presses its key, except with velocity 0 which
/// releases it like a note off; other messages do nothing.
pub open spec fn spec_note_action(m: Option<MidiNoteMessage>) -> Option<NoteAction> {
    match m {
        Some(MidiNoteMessage::NoteOn(key, vel)) => if vel == 0 {
            Some(NoteAction::Release(key))
        } else {
            Some(NoteAction::Press(key))
        },
        Some(MidiNoteMessage::NoteOff(key, _)) => Some(NoteAction::Release(key)),
        _ => None,
    }
}

/// The action of a MIDI message (see `spec_note_action`).
pub fn note_action(m: Option<MidiNoteMessage>) -> (r: Option<NoteAction>)
    ensures
        r == spec_note_action(m),
{
    match m {
        Some(MidiNoteMessage::NoteOn(key, vel)) => if vel == 0 {
            Some(NoteAction::Release(key))
        } else {
            Some(NoteAction::Press(key))
        },
        Some(MidiNoteMessage::NoteOff(key, _)) => Some(NoteAction::Release(key)),
        _ => None,
    }
}

/// The action of the bytes of a live MIDI event: that of its note message, if it has one.
pub fn midi_note_action(message: &[u8]) -> (r: Option<NoteAction>)
    ensures
        r == spec_note_action(note_message(message@)),
        r matches Some(NoteAction::Press(k)) ==> k < 128,
        r matches Some(NoteAction::Release(k)) ==> k < 128,
{
    let m = parse_midi_message(message);
    note_action(m)
}

} // verus!
