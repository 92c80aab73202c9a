# chiptrack

The core of a programmable step sequencer for the sound chip of the Game Boy Advance
(and the Game Boy before it), written in Verus: every function under `src/` carries a
contract that Verus proves.

## Layout

- `src/sequencer.rs`: the song model and the sequencer: editing steps and song patterns,
  the clipboards, recording played notes and playback, frame by frame.
- `src/pattern.rs`, `src/step.rs`: the instruments of a pattern and their sixteen steps,
  with the compact encoding of a step.
- `src/markdown.rs`, `src/song_writer.rs`: reading and writing the markdown song format.
- `src/synth_script.rs`: the registry of the instruments that the instruments script
  declares, and the script calls that presses, releases and frames ask for.
- `src/engine.rs`, `src/sound_engine.rs`: the note tracking of the displayed instrument and
  the engine that ties the sequencer to the instruments script.
- `src/chip.rs`: register writes and the sync pulse of the sound chip.
- `src/keypad.rs`, `src/midi.rs`, `src/midi_note.rs`, `src/ui.rs`: input handling and the
  small computations behind the user interface.
- `src/gist.rs`: loading a project from a GitHub gist.
- `src/sram.rs`: the save layout of a project in the cartridge's SRAM.
- `app/`: a command line front end: reading song files (or a gist API answer, from
  standard input), serde copies of the song types, and writing the binary song and the
  SRAM save.

The outside crates that the logic calls (`pulldown-cmark`, `regex`, `url`, `midly`,
`serde_json`) are
reached through a few small wrappers whose contracts name what those crates return.
