use vstd::prelude::*;

verus! {

/// Number of instrument slots that a song can sequence.
pub const NUM_INSTRUMENTS: usize = 64;

/// Number of instrument columns in the instrument grid.
pub const NUM_INSTRUMENT_COLS: usize = 4;

/// Number of parameters that an instrument can define.
pub const NUM_INSTRUMENT_PARAMS: usize = 2;

/// Number of steps in a pattern.
pub const NUM_STEPS: usize = 16;

/// Number of patterns in a song.
pub const NUM_PATTERNS: usize = 64;

} // verus!
