use vstd::prelude::*;

verus! {

/// The bits of the Game Boy Advance keypad register; a bit is set while its key is up.
pub const KEY_A: u16 = 0b00_00000001;
pub const KEY_B: u16 = 0b00_00000010;
pub const KEY_SELECT: u16 = 0b00_00000100;
pub const KEY_START: u16 = 0b00_00001000;
pub const KEY_RIGHT: u16 = 0b00_00010000;
pub const KEY_LEFT: u16 = 0b00_00100000;
pub const KEY_UP: u16 = 0b00_01000000;
pub const KEY_DOWN: u16 = 0b00_10000000;
pub const KEY_R: u16 = 0b01_00000000;
pub const KEY_L: u16 = 0b10_00000000;
pub const KEYS_ALL: u16 = 0b11_11111111;
/// The arrow keys, which repeat while held.
pub const KEYS_REPEATABLE: u16 = 0b00_11110000;

/// Frames before a held arrow key first repeats.
pub const FIRST_REPEAT_FRAMES: u16 = 10;

/// Frames between repeats of a held arrow key.
pub const NEXT_REPEAT_FRAMES: u16 = 2;

/// The keys in the order their changes are dispatched.
pub open spec fn key_order() -> Seq<u16> {
    seq![KEY_A, KEY_B, KEY_SELECT, KEY_START, KEY_RIGHT, KEY_LEFT, KEY_UP, KEY_DOWN, KEY_R, KEY_L]
}

/// A key event to dispatch to the user interface: the key's mask, and whether the
/// shift key (R) is held, which gives the capital form of letters.
#[derive(Clone, Copy, Debug, PartialEq, Eq, Structural)]
pub enum PadEvent {
    Pressed(u16, bool),
    Released(u16, bool),
}

/// The keypad state between frames: the last read register, the arrow key that repeats,
/// and the frames until it repeats.
#[derive(Clone, Copy, Debug, PartialEq, Eq, Structural)]
pub struct KeyRepeat {
    pub prev_keys: u16,
    pub repeating_key_mask: u16,
    pub frames_until_repeat: Option<u16>,
}

/// The state and events after handling one key: a changed key is pressed or released (a
/// pressed arrow key starts repeating), and a held repeating key repeats when its frames
/// ran out.
pub open spec fn spec_process_key(st: KeyRepeat, released: u16, switched: u16, key_mask: u16) -> (KeyRepeat, Seq<PadEvent>) {
    let capital = released & KEY_R == 0;
    let (st1, ev1) = if switched & key_mask != 0 {
        if released & key_mask == 0 {
            let st1 = if key_mask & KEYS_REPEATABLE != 0 {
                KeyRepeat { repeating_key_mask: key_mask, frames_until_repeat: Some(FIRST_REPEAT_FRAMES), ..st }
            } else {
                st
            };
            (st1, seq![PadEvent::Pressed(key_mask, capital)])
        } else {
            (st, seq![PadEvent::Released(key_mask, capital)])
        }
    } else {
        (st, Seq::empty())
    };
    if st1.frames_until_repeat == Some(0u16) && released & key_mask == 0 && st1.repeating_key_mask == key_mask {
        (KeyRepeat { frames_until_repeat: Some(NEXT_REPEAT_FRAMES), ..st1 }, ev1.push(PadEvent::Pressed(key_mask, capital)))
    } else {
        (st1, ev1)
    }
}

/// The state and events after handling the first `n` keys of `key_order`.
pub open spec fn process_keys_upto(st: KeyRepeat, released: u16, switched: u16, n: int) -> (KeyRepeat, Seq<PadEvent>)
    decreases n,
{
    if n <= 0 {
        (st, Seq::empty())
    } else {
        let (s1, e1) = process_keys_upto(st, released, switched, n - 1);
        let (s2, e2) = spec_process_key(s1, released, switched, key_order()[n - 1]);
        (s2, e1 + e2)
    }
}

/// The state and events after reading the keypad register: nothing happens unless a key
/// changed or a repeat is due; then each key is handled in order, and the repeat stops
/// once every key is up.
pub open spec fn spec_process_keys(st: KeyRepeat, released: u16) -> (KeyRepeat, Seq<PadEvent>) {
    let switched = released ^ st.prev_keys;
    if switched != 0 || st.frames_until_repeat == Some(0u16) {
        let (s1, e) = process_keys_upto(st, released, switched, 10);
        let s2 = KeyRepeat { prev_keys: released, ..s1 };
        (if released == KEYS_ALL { KeyRepeat { frames_until_repeat: None, ..s2 } } else { s2 }, e)
    } else {
        (st, Seq::empty())
    }
}

impl KeyRepeat {
    /// The state before the first read: every key counts as down.
    pub fn new() -> (r: KeyRepeat)
        ensures
            r == (KeyRepeat { prev_keys: 0, repeating_key_mask: 0, frames_until_repeat: None }),
    {
        KeyRepeat { prev_keys: 0, repeating_key_mask: 0, frames_until_repeat: None }
    }

    /// Counts one frame down towards the next repeat (wrapping below zero).
    pub fn vblank(&mut self)
        ensures
            *final(self) == (KeyRepeat {
                frames_until_repeat: match old(self).frames_until_repeat {
                    Some(f) => Some(f.wrapping_sub(1)),
                    None => None,
                },
                ..*old(self)
            }),
    {
        if let Some(f) = self.frames_until_repeat {
            self.frames_until_repeat = Some(f.wrapping_sub(1));
        }
    }

    fn process_key(&mut self, released: u16, switched: u16, key_mask: u16, events: &mut Vec<PadEvent>)
        ensures
            *final(self) == spec_process_key(*old(self), released, switched, key_mask).0,
            final(events)@ == old(events)@ + spec_process_key(*old(self), released, switched, key_mask).1,
    {
        let capital = released & KEY_R == 0;
        let ghost before = events@;
        if switched & key_mask != 0 {
            if released & key_mask == 0 {
                events.push(PadEvent::Pressed(key_mask, capital));
                if key_mask & KEYS_REPEATABLE != 0 {
                    self.repeating_key_mask = key_mask;
                    self.frames_until_repeat = Some(FIRST_REPEAT_FRAMES);
                }
            } else {
                events.push(PadEvent::Released(key_mask, capital));
            }
        }
        if self.frames_until_repeat == Some(0) && released & key_mask == 0 && self.repeating_key_mask == key_mask {
            events.push(PadEvent::Pressed(key_mask, capital));
            self.frames_until_repeat = Some(NEXT_REPEAT_FRAMES);
        }
        assert(events@ =~= before + spec_process_key(*old(self), released, switched, key_mask).1);
    }

    /// Reads the keypad register (a bit set for each key up) and returns the key events
    /// to dispatch (see `spec_process_keys`).
    pub fn process_keys(&mut self, released_keys: u16) -> (r: Vec<PadEvent>)
        ensures
            *final(self) == spec_process_keys(*old(self), released_keys).0,
            r@ == spec_process_keys(*old(self), released_keys).1,
    {
        let mut events: Vec<PadEvent> = Vec::new();
        let switched = released_keys ^ self.prev_keys;
        if switched != 0 || self.frames_until_repeat == Some(0) {
            let keys: [u16; 10] = [KEY_A, KEY_B, KEY_SELECT, KEY_START, KEY_RIGHT, KEY_LEFT, KEY_UP, KEY_DOWN, KEY_R, KEY_L];
            assert(keys@ =~= key_order());
            let ghost start = *self;
            let mut i: usize = 0;
            while i < 10
                invariant
                    i <= 10,
                    keys@ == key_order(),
                    (*self, events@) == process_keys_upto(start, released_keys, switched, i as int),
                decreases 10 - i,
            {
                self.process_key(released_keys, switched, keys[i], &mut events);
                i = i + 1;
            }
            self.prev_keys = released_keys;
            if released_keys == KEYS_ALL {
                self.frames_until_repeat = None;
            }
        }
        events
    }
}

/// The two hexadecimal digits of a byte, in capitals.
pub open spec fn hex_digit(d: int) -> u8 {
    (if d < 10 { 48 + d } else { 65 + d - 10 }) as u8
}

/// The two capital hexadecimal digits of a byte.
pub fn to_hex(v: u8) -> (r: [u8; 2])
    ensures
        r@ == seq![hex_digit(v as int / 16), hex_digit(v as int % 16)],
{
    let l = v & 0xf;
    let h = v >> 4;
    assert(l == v % 16 && h == v / 16) by (bit_vector)
        requires
            l == v & 0xf,
            h == v >> 4,
    ;
    let c1 = if h < 0xa { 48 + h } else { 65 + h - 0xa };
    let c2 = if l < 0xa { 48 + l } else { 65 + l - 0xa };
    let r = [c1, c2];
    assert(r@ =~= seq![hex_digit(v as int / 16), hex_digit(v as int % 16)]);
    r
}

/// The two decimal digits of a number below 100.
pub fn to_dec(v: u8) -> (r: [u8; 2])
    requires
        v < 100,
    ensures
        r@ == seq![(48 + v / 10) as u8, (48 + v % 10) as u8],
{
    let r = [(v / 10) + 48, (v % 10) + 48];
    assert(r@ =~= seq![(48 + v / 10) as u8, (48 + v % 10) as u8]);
    r
}

/// Milliseconds since start from a 16-bit millisecond timer that wraps around: each
/// time a read is below the previous one, 0xffff more milliseconds are counted.
#[derive(Clone, Copy, Debug, PartialEq, Eq, Structural)]
pub struct MillisClock {
    pub last_read: u16,
    pub base_millis: u32,
}

impl MillisClock {
    pub fn new() -> (r: MillisClock)
        ensures
            r == (MillisClock { last_read: 0, base_millis: 0 }),
    {
        MillisClock { last_read: 0, base_millis: 0 }
    }

    /// The milliseconds since start at a timer read (wrapping within `u32`).
    pub fn millis(&mut self, timer_read: u16) -> (r: u32)
        ensures
            final(self).last_read == timer_read,
            final(self).base_millis == if timer_read < old(self).last_read {
                old(self).base_millis.wrapping_add(0xffff)
            } else {
                old(self).base_millis
            },
            r == final(self).base_millis.wrapping_add(timer_read as u32),
    {
        if timer_read < self.last_read {
            self.base_millis = self.base_millis.wrapping_add(0xffff);
        }
        self.last_read = timer_read;
        self.base_millis.wrapping_add(timer_read as u32)
    }
}

/// The nanoseconds that the platform reports for a number of milliseconds (wrapping
/// within `u32`).
pub fn millis_to_nanos(ms: u32) -> (r: u32)
    ensures
        r == ms.wrapping_mul(1_000_000),
{
    ms.wrapping_mul(1_000_000)
}

/// Once every key is up, no repeat stays pending.
pub proof fn lemma_all_keys_up_stops_repeat(st: KeyRepeat)
    requires
        KEYS_ALL ^ st.prev_keys != 0 || st.frames_until_repeat == Some(0u16),
    ensures
        spec_process_keys(st, KEYS_ALL).0.frames_until_repeat is None,
        spec_process_keys(st, KEYS_ALL).0.prev_keys == KEYS_ALL,
{
}

/// A key that goes down is pressed, and one that goes up is released, each once.
pub proof fn lemma_key_change_dispatched(st: KeyRepeat, released: u16, i: int)
    requires
        0 <= i < 10,
        (released ^ st.prev_keys) & key_order()[i] != 0,
    ensures
        spec_process_keys(st, released).1.contains(
            if released & key_order()[i] == 0 {
                PadEvent::Pressed(key_order()[i], released & KEY_R == 0)
            } else {
                PadEvent::Released(key_order()[i], released & KEY_R == 0)
            },
        ),
{
    let switched = released ^ st.prev_keys;
    let k = key_order()[i];
    assert(switched != 0) by (bit_vector)
        requires
            switched & k != 0,
    ;
    lemma_upto_contains(st, released, switched, i, 10);
}

proof fn lemma_upto_contains(st: KeyRepeat, released: u16, switched: u16, i: int, n: int)
    requires
        0 <= i < n <= 10,
        switched & key_order()[i] != 0,
    ensures
        process_keys_upto(st, released, switched, n).1.contains(
            if released & key_order()[i] == 0 {
                PadEvent::Pressed(key_order()[i], released & KEY_R == 0)
            } else {
                PadEvent::Released(key_order()[i], released & KEY_R == 0)
            },
        ),
    decreases n,
{
    let ev = if released & key_order()[i] == 0 {
        PadEvent::Pressed(key_order()[i], released & KEY_R == 0)
    } else {
        PadEvent::Released(key_order()[i], released & KEY_R == 0)
    };
    let (s1, e1) = process_keys_upto(st, released, switched, n - 1);
    let (s2, e2) = spec_process_key(s1, released, switched, key_order()[n - 1]);
    if i < n - 1 {
        lemma_upto_contains(st, released, switched, i, n - 1);
        let j = choose|j: int| 0 <= j < e1.len() && e1[j] == ev;
        assert((e1 + e2)[j] == ev);
    } else {
        assert(e2[0] == ev);
        assert((e1 + e2)[e1.len() as int] == ev);
    }
}

} // verus!
