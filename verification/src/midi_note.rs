use vstd::prelude::*;
use crate::text::{push_char};

verus! {

/// Rust's truncating integer division, for a positive divisor.
pub open spec fn trunc_div(a: int, b: int) -> int
    recommends
        b > 0,
{
    if a >= 0 {
        a / b
    } else {
        -((-a) / b)
    }
}

/// Rust's remainder (sign follows the dividend), for a positive divisor.
pub open spec fn trunc_rem(a: int, b: int) -> int
    recommends
        b > 0,
{
    a - b * trunc_div(a, b)
}

/// Wraps an integer into the range of a byte, as `as u8` does.
pub open spec fn wrap_u8(a: int) -> int {
    a % 256
}

/// A MIDI note number.
#[derive(Debug, Clone, Copy)]
pub struct MidiNote(pub i32);

impl MidiNote {
    pub open spec fn spec_octave(self) -> int {
        trunc_div(self.0 as int, 12) - 1
    }

    pub open spec fn spec_semitone(self) -> int {
        trunc_rem(self.0 as int, 12)
    }

    pub open spec fn spec_key_pos(self) -> int {
        let s = self.spec_semitone();
        if s < 5 {
            trunc_div(s, 2)
        } else {
            trunc_div(s + 1, 2)
        }
    }

    pub open spec fn spec_is_black(self) -> bool {
        let s = self.spec_semitone();
        if s < 5 {
            trunc_rem(s, 2) != 0
        } else {
            trunc_rem(s, 2) == 0
        }
    }

    /// Whether the letter of the note can be computed without overflowing a byte.
    pub open spec fn has_note_letter(self) -> bool {
        wrap_u8(self.spec_key_pos()) + 2 <= 255
    }

    /// Whether the octave digit can be computed without overflowing a byte.
    pub open spec fn has_octave_char(self) -> bool {
        wrap_u8(self.spec_octave()) <= 207
    }

    pub open spec fn spec_base_note_name(self) -> u8 {
        (65 + (wrap_u8(self.spec_key_pos()) + 2) % 7) as u8
    }

    pub open spec fn spec_sharp_char(self) -> u8 {
        if self.spec_is_black() {
            35u8
        } else {
            45u8
        }
    }

    pub open spec fn spec_octave_char(self) -> u8 {
        (48 + wrap_u8(self.spec_octave())) as u8
    }

    pub open spec fn spec_char_desc(self) -> Seq<u8> {
        seq![self.spec_base_note_name(), self.spec_sharp_char(), self.spec_octave_char()]
    }

    /// The octave, where MIDI note 60 (C-5 in this notation) is in octave 4.
    pub fn octave(self) -> (r: i32)
        ensures
            r == self.spec_octave(),
    {
        (self.0 / 12) - 1
    }

    /// The semitone within the octave, negative for negative notes.
    pub fn semitone(self) -> (r: i32)
        ensures
            r == self.spec_semitone(),
    {
        self.0 % 12
    }

    /// The position of the note's key among the white keys of its octave.
    pub fn key_pos(self) -> (r: i32)
        ensures
            r == self.spec_key_pos(),
    {
        let semitone = self.semitone();
        if semitone < 5 {
            semitone / 2
        } else {
            (semitone + 1) / 2
        }
    }

    /// Whether the note is played on a black key.
    pub fn is_black(self) -> (r: bool)
        ensures
            r == self.spec_is_black(),
    {
        let semitone = self.semitone();
        if semitone < 5 {
            semitone % 2 != 0
        } else {
            semitone % 2 == 0
        }
    }

    /// The ASCII letter of the note (`A` to `G`).
    pub fn base_note_name(&self) -> (r: u8)
        requires
            self.has_note_letter(),
        ensures
            r == self.spec_base_note_name(),
    {
        let kp = self.key_pos();
        let b = byte_of(kp);
        65u8 + (b + 2) % 7
    }

    /// The three ASCII characters naming the note: letter, `#` or `-`, octave digit.
    pub fn char_desc(&self) -> (r: [u8; 3])
        requires
            self.has_note_letter(),
            self.has_octave_char(),
        ensures
            r@ == self.spec_char_desc(),
    {
        let note_name = self.base_note_name();
        let sharp_char: u8 = if self.is_black() { 35u8 } else { 45u8 };
        let octave_char = 48u8 + byte_of(self.octave());
        let r = [note_name, sharp_char, octave_char];
        assert(r@ =~= self.spec_char_desc());
        r
    }

    /// The two ASCII characters naming the note without its accidental: letter, octave digit.
    pub fn short_char_desc(&self) -> (r: [u8; 2])
        requires
            self.has_note_letter(),
            self.has_octave_char(),
        ensures
            r@ == seq![self.spec_base_note_name(), self.spec_octave_char()],
    {
        let note_name = self.base_note_name();
        let octave_char = 48u8 + byte_of(self.octave());
        let r = [note_name, octave_char];
        assert(r@ =~= seq![self.spec_base_note_name(), self.spec_octave_char()]);
        r
    }

    /// The note's name, such as `C#5`.
    pub fn name(&self) -> (s: String)
        requires
            self.has_note_letter(),
            self.has_octave_char(),
        ensures
            s@ == seq![
                self.spec_base_note_name() as char,
                self.spec_sharp_char() as char,
                self.spec_octave_char() as char,
            ],
    {
        let desc = self.char_desc();
        let mut s = String::new();
        push_char(&mut s, desc[0] as char);
        push_char(&mut s, desc[1] as char);
        push_char(&mut s, desc[2] as char);
        assert(s@ =~= seq![
            self.spec_base_note_name() as char,
            self.spec_sharp_char() as char,
            self.spec_octave_char() as char,
        ]);
        s
    }

    /// The note letter followed by `#` for black keys or a space for white keys.
    pub fn short_name(&self) -> (s: String)
        requires
            self.has_note_letter(),
        ensures
            s@ == seq![
                self.spec_base_note_name() as char,
                if self.spec_is_black() { '#' } else { ' ' },
            ],
    {
        let note_name = self.base_note_name() as char;
        let sharp_char = if self.is_black() { '#' } else { ' ' };
        let mut s = String::new();
        push_char(&mut s, note_name);
        push_char(&mut s, sharp_char);
        assert(s@ =~= seq![
            self.spec_base_note_name() as char,
            if self.spec_is_black() { '#' } else { ' ' },
        ]);
        s
    }
}

/// The semitone offset within the octave of a note letter, if it is one.
pub open spec fn note_letter_base(c: char) -> Option<int> {
    if c == 'A' {
        Some(9)
    } else if c == 'B' {
        Some(11)
    } else if c == 'C' {
        Some(0)
    } else if c == 'D' {
        Some(2)
    } else if c == 'E' {
        Some(4)
    } else if c == 'F' {
        Some(5)
    } else if c == 'G' {
        Some(7)
    } else {
        None
    }
}

/// Why a note name could not be read.
#[derive(Debug, Clone, Copy, PartialEq, Eq, Structural)]
pub enum NoteNameError {
    TooSmall,
    InvalidNoteLetter,
    InvalidAccidental,
}

/// The note that a name such as `C#5` designates: its first three characters are a note
/// letter, `#` or `-`, and an octave character (any character past `9` counts as `9`).
pub open spec fn spec_note_from_name(name: Seq<char>) -> Result<int, NoteNameError> {
    if name.len() < 3 {
        Err(NoteNameError::TooSmall)
    } else if note_letter_base(name[0]) is None {
        Err(NoteNameError::InvalidNoteLetter)
    } else if name[1] != '#' && name[1] != '-' {
        Err(NoteNameError::InvalidAccidental)
    } else {
        let octave = if name[2] as int - 48 < 9 { name[2] as int - 48 } else { 9 };
        let adj: int = if name[1] == '#' { 1 } else { 0 };
        Ok(12 + octave * 12 + note_letter_base(name[0])->0 + adj)
    }
}

impl NoteNameError {
    /// The message describing the error.
    pub fn message(&self) -> (s: &'static str)
        ensures
            s@ == match *self {
                NoteNameError::TooSmall => "MidiNote string too small"@,
                NoteNameError::InvalidNoteLetter => "Invalid MidiNote first char, should be a note letter"@,
                NoteNameError::InvalidAccidental => "Invalid MidiNote second char, should be - or #"@,
            },
    {
        match self {
            NoteNameError::TooSmall => "MidiNote string too small",
            NoteNameError::InvalidNoteLetter => "Invalid MidiNote first char, should be a note letter",
            NoteNameError::InvalidAccidental => "Invalid MidiNote second char, should be - or #",
        }
    }
}

impl MidiNote {
    /// Reads a note name such as `C#5` or `A-4`.
    pub fn from_name(name: &str) -> (r: Result<MidiNote, NoteNameError>)
        ensures
            match (r, spec_note_from_name(name@)) {
                (Ok(n), Ok(v)) => n.0 == v,
                (Err(e), Err(f)) => e == f,
                _ => false,
            },
    {
        let n = name.unicode_len();
        if n < 3 {
            return Err(NoteNameError::TooSmall);
        }
        let c1 = name.get_char(0);
        let c2 = name.get_char(1);
        let c3 = name.get_char(2);
        let base: i32 = match c1 {
            'A' => 9,
            'B' => 11,
            'C' => 0,
            'D' => 2,
            'E' => 4,
            'F' => 5,
            'G' => 7,
            _ => return Err(NoteNameError::InvalidNoteLetter),
        };
        let accidental_adj: i32 = match c2 {
            '#' => 1,
            '-' => 0,
            _ => return Err(NoteNameError::InvalidAccidental),
        };
        let d = (c3 as u32) as i32 - 48;
        let octave = if d < 9 { d } else { 9 };
        Ok(MidiNote(12 + octave * 12 + base + accidental_adj))
    }
}

/// The byte that `as u8` gives for an `i32`.
pub(crate) fn byte_of(x: i32) -> (b: u8)
    ensures
        b == wrap_u8(x as int),
{
    let r = ((x % 256) + 256) % 256;
    assert(r == wrap_u8(x as int)) by (nonlinear_arith)
        requires
            r == (x as int - 256 * trunc_div(x as int, 256) + 256) - 256 * trunc_div(
                x as int - 256 * trunc_div(x as int, 256) + 256,
                256,
            ),
    {
    }
    r as u8
}

/// Reading the name of a note gives the note back: the letter, the accidental and the
/// octave digit that name a note from 12 (`C-0`) to 127 (`G-9`) designate that note.
pub proof fn lemma_note_name_roundtrip(n: i32)
    requires
        12 <= n <= 127,
    ensures
        spec_note_from_name(
            seq![
                MidiNote(n).spec_base_note_name() as char,
                MidiNote(n).spec_sharp_char() as char,
                MidiNote(n).spec_octave_char() as char,
            ],
        ) == Ok::<int, NoteNameError>(n as int),
{
    let m = MidiNote(n);
    let o = n as int / 12;
    let st = n as int % 12;
    assert(trunc_div(n as int, 12) == o);
    assert(m.spec_semitone() == st);
    assert(m.spec_octave() == o - 1);
    assert(1 <= o <= 10);
    assert(wrap_u8(o - 1) == o - 1);
    assert(n as int == 12 * o + st);
    assert(m.spec_octave_char() == (48 + o - 1) as u8);
    assert(((48 + o - 1) as u8) as char as int - 48 == o - 1);
    let kp = m.spec_key_pos();
    assert(0 <= kp <= 6);
    assert(wrap_u8(kp) == kp);
    if st == 0 {
        assert(m.spec_base_note_name() == 67u8);
    } else if st == 1 {
        assert(m.spec_base_note_name() == 67u8);
    } else if st == 2 {
        assert(m.spec_base_note_name() == 68u8);
    } else if st == 3 {
        assert(m.spec_base_note_name() == 68u8);
    } else if st == 4 {
        assert(m.spec_base_note_name() == 69u8);
    } else if st == 5 {
        assert(m.spec_base_note_name() == 70u8);
    } else if st == 6 {
        assert(m.spec_base_note_name() == 70u8);
    } else if st == 7 {
        assert(m.spec_base_note_name() == 71u8);
    } else if st == 8 {
        assert(m.spec_base_note_name() == 71u8);
    } else if st == 9 {
        assert(m.spec_base_note_name() == 65u8);
    } else if st == 10 {
        assert(m.spec_base_note_name() == 65u8);
    } else {
        assert(m.spec_base_note_name() == 66u8);
    }
}

} // verus!
