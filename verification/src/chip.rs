use vstd::prelude::*;

verus! {

/// A channel of the Game Boy sound chip.
#[derive(Clone, Copy, Debug, PartialEq, Eq, Structural)]
pub enum Channel {
    Square1,
    Square2,
    Wave,
    Noise,
}

impl Channel {
    pub open spec fn spec_base_address(self) -> u16 {
        match self {
            Channel::Square1 => 0xff10,
            Channel::Square2 => 0xff15,
            Channel::Wave => 0xff1a,
            Channel::Noise => 0xff1f,
        }
    }

    /// The address of the channel's first sound register.
    pub fn base_address(self) -> (r: u16)
        ensures
            r == self.spec_base_address(),
    {
        match self {
            Channel::Square1 => 0xff10,
            Channel::Square2 => 0xff15,
            Channel::Wave => 0xff1a,
            Channel::Noise => 0xff1f,
        }
    }

    /// The address of the channel's volume envelope register.
    pub fn envelope_address(self) -> (r: u16)
        ensures
            r == self.spec_base_address() + 2,
    {
        self.base_address() + 2
    }
}

/// The register writes that silence every channel: each volume envelope set to 0.
pub fn mute_register_writes() -> (r: Vec<(u16, u8)>)
    ensures
        r@ == seq![(0xff12u16, 0u8), (0xff17u16, 0u8), (0xff1cu16, 0u8), (0xff21u16, 0u8)],
{
    let mut r: Vec<(u16, u8)> = Vec::new();
    r.push((Channel::Square1.envelope_address(), 0));
    r.push((Channel::Square2.envelope_address(), 0));
    r.push((Channel::Wave.envelope_address(), 0));
    r.push((Channel::Noise.envelope_address(), 0));
    assert(r@ =~= seq![(0xff12u16, 0u8), (0xff17u16, 0u8), (0xff1cu16, 0u8), (0xff21u16, 0u8)]);
    r
}

/// The Game Boy registers that a 16-bit write to a Game Boy Advance sound register lands
/// in: its low byte, then its high byte, where they exist.
pub open spec fn spec_gba_to_gb_addr(gba_addr: i32) -> (Option<u16>, Option<u16>) {
    if gba_addr == 0x4000060 {
        (Some(0xFF10u16), None)
    } else if gba_addr == 0x4000062 {
        (Some(0xFF11u16), Some(0xFF12u16))
    } else if gba_addr == 0x4000064 {
        (Some(0xFF13u16), Some(0xFF14u16))
    } else if gba_addr == 0x4000068 {
        (Some(0xFF16u16), Some(0xFF17u16))
    } else if gba_addr == 0x400006C {
        (Some(0xFF18u16), Some(0xFF19u16))
    } else if gba_addr == 0x4000070 {
        (Some(0xFF1Au16), None)
    } else if gba_addr == 0x4000072 {
        (Some(0xFF1Bu16), Some(0xFF1Cu16))
    } else if gba_addr == 0x4000074 {
        (Some(0xFF1Du16), Some(0xFF1Eu16))
    } else if gba_addr == 0x4000078 {
        (Some(0xFF20u16), Some(0xFF21u16))
    } else if gba_addr == 0x400007C {
        (Some(0xFF22u16), Some(0xFF23u16))
    } else if gba_addr == 0x4000080 {
        (Some(0xFF24u16), Some(0xFF25u16))
    } else {
        (None, None)
    }
}

/// Maps a Game Boy Advance sound register to the Game Boy registers of its two bytes.
pub fn gba_to_gb_addr(gba_addr: i32) -> (r: (Option<u16>, Option<u16>))
    ensures
        r == spec_gba_to_gb_addr(gba_addr),
{
    match gba_addr {
        0x4000060 => (Some(0xFF10), None),
        0x4000062 => (Some(0xFF11), Some(0xFF12)),
        0x4000064 => (Some(0xFF13), Some(0xFF14)),
        0x4000068 => (Some(0xFF16), Some(0xFF17)),
        0x400006C => (Some(0xFF18), Some(0xFF19)),
        0x4000070 => (Some(0xFF1A), None),
        0x4000072 => (Some(0xFF1B), Some(0xFF1C)),
        0x4000074 => (Some(0xFF1D), Some(0xFF1E)),
        0x4000078 => (Some(0xFF20), Some(0xFF21)),
        0x400007C => (Some(0xFF22), Some(0xFF23)),
        0x4000080 => (Some(0xFF24), Some(0xFF25)),
        _ => (None, None),
    }
}

/// The Game Boy register writes for a write of `value` to a Game Boy Advance sound
/// register: the low byte, then the second byte, to the registers that exist.
pub fn sound_register_writes(addr: i32, value: i32) -> (r: Vec<(u16, u8)>)
    ensures
        r@ == (match spec_gba_to_gb_addr(addr).0 {
            Some(a) => seq![(a, value as u8)],
            None => Seq::empty(),
        }) + (match spec_gba_to_gb_addr(addr).1 {
            Some(a) => seq![(a, (value >> 8) as u8)],
            None => Seq::empty(),
        }),
{
    let (lsb, msb) = gba_to_gb_addr(addr);
    let mut r: Vec<(u16, u8)> = Vec::new();
    if let Some(a) = lsb {
        r.push((a, value as u8));
    }
    if let Some(a) = msb {
        r.push((a, (value >> 8) as u8));
    }
    assert(r@ =~= (match spec_gba_to_gb_addr(addr).0 {
        Some(a) => seq![(a, value as u8)],
        None => Seq::<(u16, u8)>::empty(),
    }) + (match spec_gba_to_gb_addr(addr).1 {
        Some(a) => seq![(a, (value >> 8) as u8)],
        None => Seq::<(u16, u8)>::empty(),
    }));
    r
}

/// The register writes that load a wave table: its first sixteen bytes, from `0xff30` on.
pub fn wave_table_writes(table: &[u8]) -> (r: Vec<(u16, u8)>)
    ensures
        r@.len() == if table@.len() < 16 { table@.len() } else { 16 },
        forall|i: int| 0 <= i < r@.len() ==> #[trigger] r@[i] == ((0xff30 + i) as u16, table@[i]),
{
    let n = if table.len() < 16 { table.len() } else { 16 };
    let mut r: Vec<(u16, u8)> = Vec::new();
    let mut i: usize = 0;
    while i < n
        invariant
            i <= n,
            n <= 16,
            n <= table@.len(),
            r@.len() == i,
            forall|j: int| 0 <= j < i ==> #[trigger] r@[j] == ((0xff30 + j) as u16, table@[j]),
        decreases n - i,
    {
        r.push(((0xff30 + i) as u16, table[i]));
        i = i + 1;
    }
    r
}

/// Whether a step change sends a sync pulse: on every other step, as devices that sync on
/// two pulses per quarter note expect.
pub fn sync_pulse_due(step_change: Option<u32>) -> (r: bool)
    ensures
        r == (step_change matches Some(s) && s % 2 == 0),
{
    match step_change {
        Some(s) => s % 2 == 0,
        None => false,
    }
}

/// Where a sync pulse's square wave is: silent, or in the high or low half of a period,
/// with the samples left in that half and the periods left after this one.
#[derive(Clone, Copy, Debug, PartialEq, Eq, Structural)]
pub enum PulseState {
    Zero,
    Up(u32, u32),
    Down(u32, u32),
}

/// A square wave sent on an audio channel to sync other devices to the song's steps.
pub struct SyncPulse {
    pub enabled: bool,
    pub state: PulseState,
    pub period: u32,
    pub loops: u32,
}

/// The state after one sample, and the sample: `1` in the high half, `-1` in the low
/// half, `0` once the pulse is over.
pub open spec fn pulse_step(state: PulseState, period: u32) -> (PulseState, i8) {
    match state {
        PulseState::Zero => (PulseState::Zero, 0i8),
        PulseState::Up(p, l) => (if p == 0 { PulseState::Down(period, l) } else { PulseState::Up((p - 1) as u32, l) }, 1i8),
        PulseState::Down(p, l) => (
            if p == 0 {
                if l == 0 {
                    PulseState::Zero
                } else {
                    PulseState::Up(period, (l - 1) as u32)
                }
            } else {
                PulseState::Down((p - 1) as u32, l)
            },
            -1i8,
        ),
    }
}

impl SyncPulse {
    /// A pulse generator for `sample_rate` samples per second and a `tone_freq` square wave
    /// repeated `loops` more times per pulse; it starts with a pulse of two more periods.
    pub fn new(enabled: bool, sample_rate: u32, tone_freq: u32, loops: u32) -> (r: SyncPulse)
        requires
            tone_freq > 0,
        ensures
            r.enabled == enabled,
            r.period == sample_rate / tone_freq,
            r.state == PulseState::Up(sample_rate / tone_freq, 2),
            r.loops == loops,
    {
        let period = sample_rate / tone_freq;
        SyncPulse { enabled, state: PulseState::Up(period, 2), period, loops }
    }

    /// Starts a pulse, when enabled.
    pub fn pulse(&mut self)
        ensures
            final(self).state == if old(self).enabled { PulseState::Up(old(self).period, old(self).loops) } else { old(self).state },
            final(self).enabled == old(self).enabled,
            final(self).period == old(self).period,
            final(self).loops == old(self).loops,
    {
        if self.enabled {
            self.state = PulseState::Up(self.period, self.loops);
        }
    }

    /// The next sample, or `None` when disabled (see `pulse_step`).
    pub fn next_sample(&mut self) -> (r: Option<i8>)
        ensures
            !old(self).enabled ==> r is None && *final(self) == *old(self),
            old(self).enabled ==> {
                &&& r == Some(pulse_step(old(self).state, old(self).period).1)
                &&& final(self).state == pulse_step(old(self).state, old(self).period).0
                &&& final(self).enabled == old(self).enabled
                &&& final(self).period == old(self).period
                &&& final(self).loops == old(self).loops
            },
    {
        if !self.enabled {
            return None;
        }
        match self.state {
            PulseState::Zero => Some(0),
            PulseState::Up(p, l) => {
                self.state = if p == 0 { PulseState::Down(self.period, l) } else { PulseState::Up(p - 1, l) };
                Some(1)
            },
            PulseState::Down(p, l) => {
                self.state = if p == 0 {
                    if l == 0 {
                        PulseState::Zero
                    } else {
                        PulseState::Up(self.period, l - 1)
                    }
                } else {
                    PulseState::Down(p - 1, l)
                };
                Some(-1)
            },
        }
    }
}

/// The state after `n` samples.
pub open spec fn pulse_after(state: PulseState, period: u32, n: nat) -> PulseState
    decreases n,
{
    if n == 0 {
        state
    } else {
        pulse_after(pulse_step(state, period).0, period, (n - 1) as nat)
    }
}

proof fn lemma_pulse_after_add(state: PulseState, period: u32, a: nat, b: nat)
    ensures
        pulse_after(state, period, a + b) == pulse_after(pulse_after(state, period, a), period, b),
    decreases a,
{
    if a > 0 {
        lemma_pulse_after_add(pulse_step(state, period).0, period, (a - 1) as nat, b);
        assert((a + b - 1) as nat == (a - 1) as nat + b);
    }
}

proof fn lemma_half_period(p: u32, l: u32, period: u32, up: bool)
    ensures
        pulse_after(if up { PulseState::Up(p, l) } else { PulseState::Down(p, l) }, period, (p + 1) as nat) == if up {
            PulseState::Down(period, l)
        } else if l == 0 {
            PulseState::Zero
        } else {
            PulseState::Up(period, (l - 1) as u32)
        },
    decreases p,
{
    let s = if up { PulseState::Up(p, l) } else { PulseState::Down(p, l) };
    if p > 0 {
        lemma_half_period((p - 1) as u32, l, period, up);
        assert(pulse_step(s, period).0 == if up { PulseState::Up((p - 1) as u32, l) } else { PulseState::Down((p - 1) as u32, l) });
        assert(((p - 1) as u32 + 1) as nat == (p + 1 - 1) as nat);
    } else {
        assert(pulse_after(pulse_step(s, period).0, period, 0) == pulse_step(s, period).0);
    }
}

/// A pulse goes silent: `l + 1` periods of `period + 1` high samples and `period + 1`
/// low samples after it starts, the generator is at rest.
pub proof fn lemma_pulse_ends(period: u32, l: u32)
    ensures
        pulse_after(PulseState::Up(period, l), period, ((l + 1) * 2 * (period + 1)) as nat) == PulseState::Zero,
    decreases l,
{
    let h = (period + 1) as nat;
    lemma_half_period(period, l, period, true);
    lemma_half_period(period, l, period, false);
    lemma_pulse_after_add(PulseState::Up(period, l), period, h, h);
    let one = pulse_after(PulseState::Up(period, l), period, h + h);
    assert(one == if l == 0 { PulseState::Zero } else { PulseState::Up(period, (l - 1) as u32) });
    if l == 0 {
        assert(((l + 1) * 2 * (period + 1)) as nat == h + h) by (nonlinear_arith)
            requires
                h == period + 1,
                l == 0,
        ;
    } else {
        lemma_pulse_ends(period, (l - 1) as u32);
        assert(((l + 1) * 2 * (period + 1)) as nat == (h + h) + (((l - 1) as u32 + 1) * 2 * (period + 1)) as nat) by (nonlinear_arith)
            requires
                h == period + 1,
                l >= 1,
        ;
        lemma_pulse_after_add(PulseState::Up(period, l), period, h + h, (((l - 1) as u32 + 1) * 2 * (period + 1)) as nat);
    }
}

/// The sample `k` samples after a pulse starts, from `0`: in each of the `l + 1` periods
/// of `2 * (period + 1)` samples, the first `period + 1` are high and the rest low; then
/// the pulse is silent.
pub open spec fn pulse_sample(period: u32, l: u32, k: nat) -> i8 {
    let m: int = 2 * (period + 1);
    if k < m * (l + 1) {
        if (k as int) % m <= period {
            1i8
        } else {
            -1i8
        }
    } else {
        0i8
    }
}

proof fn lemma_half_run(p: u32, l: u32, period: u32, up: bool, j: nat)
    requires
        j <= p,
    ensures
        pulse_after(if up { PulseState::Up(p, l) } else { PulseState::Down(p, l) }, period, j) == if up {
            PulseState::Up((p - j) as u32, l)
        } else {
            PulseState::Down((p - j) as u32, l)
        },
    decreases j,
{
    if j > 0 {
        lemma_half_run((p - 1) as u32, l, period, up, (j - 1) as nat);
    }
}

proof fn lemma_silence_stays(period: u32, n: nat)
    ensures
        pulse_after(PulseState::Zero, period, n) == PulseState::Zero,
    decreases n,
{
    if n > 0 {
        lemma_silence_stays(period, (n - 1) as nat);
    }
}

/// Each call of `next_sample` takes the state one sample further: after `k + 1` samples
/// the state is one step past the state after `k`, so the calls following a pulse go
/// through `pulse_after` of the started state, one sample each.
pub proof fn lemma_pulse_after_next(state: PulseState, period: u32, k: nat)
    ensures
        pulse_after(state, period, k + 1) == pulse_step(pulse_after(state, period, k), period).0,
{
    lemma_pulse_after_add(state, period, k, 1);
    assert(pulse_after(pulse_after(state, period, k), period, 1) == pulse_after(
        pulse_step(pulse_after(state, period, k), period).0,
        period,
        0,
    ));
}

/// Once a pulse starts, its `k`-th sample is `pulse_sample(period, l, k)`: high and low
/// halves of `period + 1` samples for `l + 1` periods, then silence.
pub proof fn lemma_pulse_samples(period: u32, l: u32, k: nat)
    ensures
        pulse_step(pulse_after(PulseState::Up(period, l), period, k), period).1 == pulse_sample(period, l, k),
    decreases l,
{
    let h = (period + 1) as nat;
    let m = h + h;
    assert(m == 2 * (period + 1));
    assert(m <= m * (l + 1)) by (nonlinear_arith)
        requires
            m > 0,
    ;
    if k < h {
        lemma_half_run(period, l, period, true, k);
        vstd::arithmetic::div_mod::lemma_small_mod(k, m);
    } else if k < m {
        lemma_half_period(period, l, period, true);
        lemma_pulse_after_add(PulseState::Up(period, l), period, h, (k - h) as nat);
        lemma_half_run(period, l, period, false, (k - h) as nat);
        vstd::arithmetic::div_mod::lemma_small_mod(k, m);
    } else {
        lemma_half_period(period, l, period, true);
        lemma_half_period(period, l, period, false);
        lemma_pulse_after_add(PulseState::Up(period, l), period, h, h);
        lemma_pulse_after_add(PulseState::Up(period, l), period, m, (k - m) as nat);
        let k2 = (k - m) as nat;
        if l == 0 {
            lemma_silence_stays(period, k2);
            assert(m * (l + 1) == m) by (nonlinear_arith)
                requires
                    l == 0,
            ;
        } else {
            lemma_pulse_samples(period, (l - 1) as u32, k2);
            vstd::arithmetic::div_mod::lemma_mod_add_multiples_vanish(k2 as int, m as int);
            assert(k2 + m == k);
            assert(m * (l + 1) == m * ((l - 1) as u32 + 1) + m) by (nonlinear_arith)
                requires
                    l >= 1,
            ;
        }
    }
}

} // verus!
