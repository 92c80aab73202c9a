//! Verified core of a programmable sequencer for the Game Boy Advance sound chip:
//! song model, step sequencing, song text format and instrument bookkeeping.

pub mod chip;
pub mod consts;
pub mod engine;
pub mod gist;
pub mod keypad;
pub mod markdown;
pub mod midi;
pub mod midi_note;
pub mod pattern;
pub mod sequencer;
pub mod song_writer;
pub mod sound_engine;
pub mod sram;
pub mod step;
pub mod synth_script;
pub mod text;
pub mod ui;
