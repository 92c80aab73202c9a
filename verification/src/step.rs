use vstd::prelude::*;

verus! {

/// What the sequencer asks of an instrument on a step.
#[derive(Clone, Copy, Debug, PartialEq, Eq, Structural)]
pub enum StepEvent {
    /// Press a note with the two parameter values.
    Press(u8, i8, i8),
    /// Release the pressed note.
    Release,
    /// Set parameter `0` or `1` to a value without pressing.
    SetParam(u8, i8),
}

/// The content of one step of one instrument in a pattern.
/// A `note` of `0` means that the step does not press a note.
#[derive(Clone, Copy, Debug, PartialEq, Eq, Structural)]
pub struct InstrumentStep {
    pub note: u8,
    pub release: bool,
    pub param0: Option<i8>,
    pub param1: Option<i8>,
}

impl Default for InstrumentStep {
    fn default() -> (r: Self)
        ensures
            r == InstrumentStep::spec_empty(),
    {
        InstrumentStep::empty()
    }
}

impl InstrumentStep {
    pub open spec fn spec_empty() -> Self {
        InstrumentStep { note: 0, release: false, param0: None, param1: None }
    }

    pub open spec fn spec_is_empty(self) -> bool {
        self.note == 0 && !self.release && self.param0 is None && self.param1 is None
    }

    pub open spec fn spec_press_note(self) -> Option<u8> {
        if self.note == 0 {
            None
        } else {
            Some(self.note)
        }
    }

    /// A step that neither presses, releases nor sets a parameter.
    pub fn empty() -> (r: Self)
        ensures
            r == Self::spec_empty(),
    {
        InstrumentStep { note: 0, release: false, param0: None, param1: None }
    }

    /// Whether the step does nothing.
    pub fn is_empty(&self) -> (r: bool)
        ensures
            r == self.spec_is_empty(),
    {
        self.note == 0 && !self.release && self.param0.is_none() && self.param1.is_none()
    }

    /// Sets the pressed note, or removes the press with `None`.
    pub fn set_press_note(&mut self, note: Option<u8>)
        requires
            note != Some(0u8),
        ensures
            *final(self) == (InstrumentStep {
                note: match note {
                    Some(v) => v,
                    None => 0,
                },
                ..*old(self)
            }),
    {
        match note {
            None => self.note = 0,
            Some(v) => self.note = v,
        }
    }

    /// Whether the step presses a note.
    pub fn press(&self) -> (r: bool)
        ensures
            r == (self.note != 0),
    {
        self.note != 0
    }

    /// The pressed note, if any. Note `0` stands for no press.
    pub fn press_note(&self) -> (r: Option<u8>)
        ensures
            r == self.spec_press_note(),
    {
        if self.note == 0 {
            None
        } else {
            Some(self.note)
        }
    }

    /// The first parameter, if the step sets it.
    pub fn param0(&self) -> (r: Option<i8>)
        ensures
            r == self.param0,
    {
        self.param0
    }

    /// The second parameter, if the step sets it.
    pub fn param1(&self) -> (r: Option<i8>)
        ensures
            r == self.param1,
    {
        self.param1
    }

    /// The compact byte encoding of a step: the note with the release flag in the high bit,
    /// a flags byte telling which parameters follow, then the set parameters.
    pub open spec fn spec_encode(self) -> Seq<u8> {
        let head = seq![
            (if self.release { 128 + self.note % 128 } else { self.note as int }) as u8,
            ((if self.param1 is Some { 2int } else { 0int }) + (if self.param0 is Some {
                1int
            } else {
                0int
            })) as u8,
        ];
        let p0 = match self.param0 {
            Some(v) => seq![v as u8],
            None => Seq::empty(),
        };
        let p1 = match self.param1 {
            Some(v) => seq![v as u8],
            None => Seq::empty(),
        };
        head + p0 + p1
    }

    /// Decodes a step from the start of `bytes`, with the number of bytes it takes.
    pub open spec fn spec_decode(bytes: Seq<u8>) -> Option<(InstrumentStep, int)> {
        if bytes.len() < 2 {
            None
        } else {
            let note = bytes[0];
            let flags = bytes[1];
            let has0 = flags % 2 == 1;
            let has1 = (flags / 2) % 2 == 1;
            let n = 2 + (if has0 { 1int } else { 0int }) + (if has1 { 1int } else { 0int });
            if bytes.len() < n {
                None
            } else {
                Some(
                    (
                        InstrumentStep {
                            note: (note % 128) as u8,
                            release: note >= 128,
                            param0: if has0 { Some(bytes[2] as i8) } else { None },
                            param1: if has1 {
                                Some(bytes[if has0 { 3int } else { 2int }] as i8)
                            } else {
                                None
                            },
                        },
                        n,
                    ),
                )
            }
        }
    }

    /// Encodes the step in two to four bytes.
    pub fn encode(&self) -> (r: Vec<u8>)
        ensures
            r@ == self.spec_encode(),
    {
        let rel: u8 = if self.release { 128 } else { 0 };
        let note: u8 = if self.release { rel + self.note % 128 } else { self.note };
        let flags: u8 = if self.param1.is_some() { 2 } else { 0 };
        let flags: u8 = flags + if self.param0.is_some() { 1 } else { 0 };
        let mut r: Vec<u8> = Vec::new();
        r.push(note);
        r.push(flags);
        if let Some(v) = self.param0 {
            r.push(v as u8);
        }
        if let Some(v) = self.param1 {
            r.push(v as u8);
        }
        assert(r@ =~= self.spec_encode());
        r
    }

    /// Decodes a step from the start of `bytes`, returning it with the number of bytes read.
    pub fn decode(bytes: &[u8]) -> (r: Option<(InstrumentStep, usize)>)
        ensures
            match (r, Self::spec_decode(bytes@)) {
                (Some((s, n)), Some((t, m))) => s == t && n == m,
                (None, None) => true,
                _ => false,
            },
    {
        if bytes.len() < 2 {
            return None;
        }
        let note = bytes[0];
        let flags = bytes[1];
        let has0 = flags % 2 == 1;
        let has1 = (flags / 2) % 2 == 1;
        let n: usize = 2 + (if has0 { 1 } else { 0 }) + (if has1 { 1 } else { 0 });
        if bytes.len() < n {
            return None;
        }
        let param0 = if has0 { Some(bytes[2] as i8) } else { None };
        let param1 = if has1 { Some(bytes[if has0 { 3 } else { 2 }] as i8) } else { None };
        Some((InstrumentStep { note: note % 128, release: note >= 128, param0, param1 }, n))
    }
}

/// Decoding the encoding of a step gives the step back, when its note fits in seven bits.
pub proof fn lemma_step_encode_decode(step: InstrumentStep)
    requires
        step.note < 128,
    ensures
        InstrumentStep::spec_decode(step.spec_encode()) == Some(
            (step, step.spec_encode().len() as int),
        ),
{
    let e = step.spec_encode();
    assert(forall|v: i8| #[trigger] ((v as u8) as i8) == v) by (bit_vector);
    let d = InstrumentStep::spec_decode(e);
    assert(d is Some);
    let (t, n) = d->0;
    assert(t == step);
}

} // verus!
