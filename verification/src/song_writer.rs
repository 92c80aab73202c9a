use vstd::prelude::*;
use crate::consts::{NUM_PATTERNS, NUM_STEPS};
use crate::midi_note::MidiNote;
use crate::pattern::{Instrument, InstrumentView, Pattern, spec_order};
use crate::sequencer::{SequencerSong, SongView, song_structure_wf, song_wf};
use crate::step::InstrumentStep;
use crate::text::{all_digits, chars_of, digits_value, push_char, spec_parse_int};
use crate::markdown::{spec_param_value, spec_step_params, split_slash};

verus! {

/// The concatenation of `f(0)`, ..., `f(n - 1)`.
pub open spec fn concat_map(n: int, f: spec_fn(int) -> Seq<char>) -> Seq<char>
    decreases n,
{
    if n <= 0 {
        Seq::empty()
    } else {
        concat_map(n - 1, f) + f(n - 1)
    }
}

/// The decimal digit character of `d`.
pub open spec fn digit_char(d: int) -> char {
    (48 + d) as char
}

/// The decimal writing of a natural number.
pub open spec fn decimal(n: nat) -> Seq<char>
    decreases n,
{
    if n < 10 {
        seq![digit_char(n as int)]
    } else {
        decimal(n / 10).push(digit_char((n % 10) as int))
    }
}

/// The decimal writing of an integer, with `-` before negative ones.
pub open spec fn signed_decimal(v: int) -> Seq<char> {
    if v < 0 {
        seq!['-'] + decimal((-v) as nat)
    } else {
        decimal(v as nat)
    }
}

/// `n` copies of a character.
pub open spec fn repeated(c: char, n: int) -> Seq<char> {
    Seq::new(if n > 0 { n as nat } else { 0 }, |i: int| c)
}

/// A step's parameters as written after its note: `` `p0/p1` ``, `` `p0` `` or
/// `` `/p1` `` after a space, or nothing.
pub open spec fn params_text(s: InstrumentStep) -> Seq<char> {
    match (s.param0, s.param1) {
        (Some(a), Some(b)) => seq![' ', '`'] + signed_decimal(a as int) + seq!['/'] + signed_decimal(b as int) + seq!['`'],
        (Some(a), None) => seq![' ', '`'] + signed_decimal(a as int) + seq!['`'],
        (None, Some(b)) => seq![' ', '`', '/'] + signed_decimal(b as int) + seq!['`'],
        (None, None) => Seq::empty(),
    }
}

/// The widest parameter text among the first `n` steps.
pub open spec fn params_width(steps: Seq<InstrumentStep>, n: int) -> int
    decreases n,
{
    if n <= 0 {
        0
    } else {
        let w = params_width(steps, n - 1);
        let l = params_text(steps[n - 1]).len() as int;
        if l > w {
            l
        } else {
            w
        }
    }
}

/// The width of an instrument's parameter column.
pub open spec fn column_width(ins: InstrumentView) -> int {
    params_width(ins.steps, NUM_STEPS as int)
}

/// `t` centered in `w` characters, the extra space going to the right.
pub open spec fn centered(t: Seq<char>, w: int) -> Seq<char> {
    if t.len() >= w {
        t
    } else {
        let pad = w - t.len();
        repeated(' ', pad / 2) + t + repeated(' ', pad - pad / 2)
    }
}

/// `t` followed by spaces up to `w` characters.
pub open spec fn left_aligned(t: Seq<char>, w: int) -> Seq<char> {
    t + repeated(' ', w - t.len())
}

/// The name of a note, such as `C#5`.
pub open spec fn note_name(note: u8) -> Seq<char> {
    let m = MidiNote(note as i32);
    seq![m.spec_base_note_name() as char, m.spec_sharp_char() as char, m.spec_octave_char() as char]
}

/// A step's cell: the note name (or ` - `), `.` for a release (or a space), and the
/// parameters left-aligned in the column's width.
pub open spec fn step_cell(s: InstrumentStep, w: int) -> Seq<char> {
    seq!['|'] + (if s.note != 0 { note_name(s.note) } else { seq![' ', '-', ' '] }) + seq![
        if s.release { '.' } else { ' ' },
    ] + left_aligned(params_text(s), w)
}

/// Whether an instrument presses or releases on some step, which is what gets saved.
pub open spec fn saved(ins: InstrumentView) -> bool {
    exists|i: int| 0 <= i < ins.steps.len() && (ins.steps[i].note != 0 || ins.steps[i].release)
}

/// The order key of a saved instrument's slot.
pub open spec fn slot_key(ins: InstrumentView) -> int {
    spec_order(ins.synth_index->0) as int
}

/// The positions among the first `n` instruments of those saved with order key `k`.
pub open spec fn positions_with_key(p: Seq<InstrumentView>, k: int, n: int) -> Seq<int>
    decreases n,
{
    if n <= 0 {
        Seq::empty()
    } else {
        positions_with_key(p, k, n - 1) + if saved(p[n - 1]) && slot_key(p[n - 1]) == k {
            seq![n - 1]
        } else {
            Seq::empty()
        }
    }
}

/// The largest order key of a slot, plus one.
pub open spec fn num_keys() -> int {
    1024
}

/// The saved instruments with an order key below `k`, by key, then in pattern order.
pub open spec fn saved_order_upto(p: Seq<InstrumentView>, k: int) -> Seq<int>
    decreases k,
{
    if k <= 0 {
        Seq::empty()
    } else {
        saved_order_upto(p, k - 1) + positions_with_key(p, k - 1, p.len() as int)
    }
}

/// The positions among the first `n` instruments of those saved, in pattern order.
pub open spec fn saved_positions(p: Seq<InstrumentView>, n: int) -> Seq<int>
    decreases n,
{
    if n <= 0 {
        Seq::empty()
    } else {
        saved_positions(p, n - 1) + if saved(p[n - 1]) {
            seq![n - 1]
        } else {
            Seq::empty()
        }
    }
}

/// A pattern saves two instruments or more, whose columns are then sorted by slot.
pub open spec fn saves_several(p: Seq<InstrumentView>) -> bool {
    saved_positions(p, p.len() as int).len() >= 2
}

/// The saved instruments of a pattern, in the order their columns are written: by slot
/// order (columns of the instrument grid first), then in pattern order. A single saved
/// instrument needs no sorting.
pub open spec fn saved_order(p: Seq<InstrumentView>) -> Seq<int> {
    if saves_several(p) {
        saved_order_upto(p, num_keys())
    } else {
        saved_positions(p, p.len() as int)
    }
}

/// The table of a pattern's saved instruments: the header of identifiers, the separator
/// and sixteen rows of steps.
pub open spec fn pattern_table(p: Seq<InstrumentView>, order: Seq<int>) -> Seq<char> {
    let n = order.len() as int;
    let header = concat_map(n, |j: int| seq!['|'] + centered(p[order[j]].id, 4 + column_width(p[order[j]])));
    let sep = concat_map(n, |j: int| seq!['|', '-', '-', '-', '-'] + repeated('-', column_width(p[order[j]])));
    let rows = concat_map(
        NUM_STEPS as int,
        |si: int| concat_map(n, |j: int| step_cell(p[order[j]].steps[si], column_width(p[order[j]]))) + seq!['|', '\n'],
    );
    header + seq!['|', '\n'] + sep + seq!['|', '\n'] + rows + seq!['\n']
}

/// The section of pattern `pi`: nothing when it saves no instrument.
pub open spec fn pattern_section(pi: int, p: Seq<InstrumentView>) -> Seq<char> {
    let order = saved_order(p);
    if order.len() == 0 {
        Seq::empty()
    } else {
        "## Pattern "@ + decimal((pi + 1) as nat) + seq!['\n', '\n'] + pattern_table(p, order)
    }
}

/// The song list: a link to each song pattern, when there is one.
pub open spec fn song_section(sps: Seq<usize>) -> Seq<char> {
    if sps.len() == 0 {
        Seq::empty()
    } else {
        "## Song\n\n"@ + concat_map(
            sps.len() as int,
            |i: int| "- [Pattern "@ + decimal((sps[i] + 1) as nat) + "](#pattern-"@ + decimal((sps[i] + 1) as nat) + seq![')', '\n'],
        ) + seq!['\n']
    }
}

/// The settings section.
pub open spec fn settings_section(song: SongView) -> Seq<char> {
    "## Settings\n\n- InstrumentsFile: "@ + song.instruments_file + "\n- FramesPerStep: "@ + decimal(
        song.frames_per_step as nat,
    ) + seq!['\n', '\n']
}

/// The markdown text of a song: the free text kept from the top of its file, the song
/// list, the patterns, then the settings.
pub open spec fn song_text(song: SongView) -> Seq<char> {
    song.markdown_header + song_section(song.song_patterns) + concat_map(
        song.patterns.len() as int,
        |pi: int| pattern_section(pi, song.patterns[pi]),
    ) + settings_section(song)
}

/// A song can be written: the saved instruments of a pattern that saves several have a
/// slot to sort them by, and the notes of saved instruments have names.
pub open spec fn writable(song: SongView) -> bool {
    forall|p: int, k: int|
        0 <= p < song.patterns.len() && 0 <= k < song.patterns[p].len() && #[trigger] saved(song.patterns[p][k])
            ==> {
            &&& saves_several(song.patterns[p]) ==> song.patterns[p][k].synth_index is Some
            &&& forall|s: int|
                0 <= s < song.patterns[p][k].steps.len() ==> (#[trigger] song.patterns[p][k].steps[s]).note == 0
                    || song.patterns[p][k].steps[s].note >= 12
        }
}

/// Appends the characters of `t`.
fn push_chars(out: &mut String, t: &Vec<char>)
    ensures
        final(out)@ == old(out)@ + t@,
{
    let mut i: usize = 0;
    while i < t.len()
        invariant
            i <= t@.len(),
            out@ == old(out)@ + t@.take(i as int),
        decreases t@.len() - i,
    {
        push_char(out, t[i]);
        assert(t@.take(i + 1) =~= t@.take(i as int).push(t@[i as int]));
        i = i + 1;
    }
    assert(t@.take(t@.len() as int) =~= t@);
}

/// Appends a string literal.
fn push_str(out: &mut String, t: &str)
    ensures
        final(out)@ == old(out)@ + t@,
{
    let c = chars_of(t);
    push_chars(out, &c);
}

/// Appends `n` copies of a character.
fn push_repeated(out: &mut String, c: char, n: usize)
    ensures
        final(out)@ == old(out)@ + repeated(c, n as int),
{
    let mut i: usize = 0;
    while i < n
        invariant
            i <= n,
            out@ == old(out)@ + repeated(c, i as int),
        decreases n - i,
    {
        push_char(out, c);
        assert(repeated(c, i + 1) =~= repeated(c, i as int).push(c));
        i = i + 1;
    }
}

/// The decimal digits of a number.
fn decimal_chars(v: u64) -> (r: Vec<char>)
    ensures
        r@ == decimal(v as nat),
    decreases v,
{
    if v < 10 {
        let mut r: Vec<char> = Vec::new();
        r.push(((48 + v) as u8) as char);
        assert(r@ =~= decimal(v as nat));
        r
    } else {
        let mut r = decimal_chars(v / 10);
        r.push(((48 + v % 10) as u8) as char);
        r
    }
}

/// The decimal writing of an `i8`.
fn signed_chars(v: i8) -> (r: Vec<char>)
    ensures
        r@ == signed_decimal(v as int),
{
    if v < 0 {
        let d = decimal_chars((0 - (v as i64)) as u64);
        let mut r: Vec<char> = Vec::new();
        r.push('-');
        let mut i: usize = 0;
        while i < d.len()
            invariant
                i <= d@.len(),
                r@ == seq!['-'] + d@.take(i as int),
            decreases d@.len() - i,
        {
            r.push(d[i]);
            assert(d@.take(i + 1) =~= d@.take(i as int).push(d@[i as int]));
            i = i + 1;
        }
        assert(d@.take(d@.len() as int) =~= d@);
        r
    } else {
        decimal_chars(v as u64)
    }
}

/// A step's parameter text.
fn params_chars(s: &InstrumentStep) -> (r: Vec<char>)
    ensures
        r@ == params_text(*s),
{
    let mut r: Vec<char> = Vec::new();
    match (s.param0, s.param1) {
        (None, None) => {
            assert(r@ =~= params_text(*s));
            return r;
        },
        _ => {},
    }
    r.push(' ');
    r.push('`');
    let mut parts: Vec<char> = Vec::new();
    if let Some(a) = s.param0 {
        parts = signed_chars(a);
    }
    if let Some(b) = s.param1 {
        parts.push('/');
        let bc = signed_chars(b);
        let mut i: usize = 0;
        let ghost before = parts@;
        while i < bc.len()
            invariant
                i <= bc@.len(),
                parts@ == before + bc@.take(i as int),
            decreases bc@.len() - i,
        {
            parts.push(bc[i]);
            assert(bc@.take(i + 1) =~= bc@.take(i as int).push(bc@[i as int]));
            i = i + 1;
        }
        assert(bc@.take(bc@.len() as int) =~= bc@);
    }
    let mut i: usize = 0;
    while i < parts.len()
        invariant
            i <= parts@.len(),
            r@ == seq![' ', '`'] + parts@.take(i as int),
        decreases parts@.len() - i,
    {
        r.push(parts[i]);
        assert(parts@.take(i + 1) =~= parts@.take(i as int).push(parts@[i as int]));
        i = i + 1;
    }
    assert(parts@.take(parts@.len() as int) =~= parts@);
    r.push('`');
    assert(r@ =~= params_text(*s));
    r
}

/// The width of the parameter column of an instrument's steps.
fn column_width_of(steps: &[InstrumentStep; NUM_STEPS]) -> (r: usize)
    ensures
        r == params_width(steps@, NUM_STEPS as int),
{
    let mut w: usize = 0;
    let mut i: usize = 0;
    while i < NUM_STEPS
        invariant
            i <= NUM_STEPS,
            w == params_width(steps@, i as int),
        decreases NUM_STEPS - i,
    {
        let l = params_chars(&steps[i]).len();
        if l > w {
            w = l;
        }
        i = i + 1;
    }
    w
}

/// Whether an instrument presses or releases on some step.
fn is_saved(steps: &[InstrumentStep; NUM_STEPS]) -> (r: bool)
    ensures
        r == exists|i: int| 0 <= i < steps@.len() && (steps@[i].note != 0 || steps@[i].release),
{
    let mut i: usize = 0;
    while i < NUM_STEPS
        invariant
            i <= NUM_STEPS,
            forall|j: int| 0 <= j < i ==> !(steps@[j].note != 0 || steps@[j].release),
        decreases NUM_STEPS - i,
    {
        if steps[i].note != 0 || steps[i].release {
            return true;
        }
        i = i + 1;
    }
    false
}

/// The positions of a pattern's saved instruments in the order they are written.
/// The positions of a pattern's saved instruments, in pattern order, and whether each is saved.
fn saved_positions_of(p: &Pattern) -> (r: (Vec<usize>, Vec<bool>))
    requires
        forall|k: int| 0 <= k < p@.len() ==> (#[trigger] p@[k]).steps.len() == NUM_STEPS,
    ensures
        r.0@.len() == saved_positions(p@, p@.len() as int).len(),
        forall|j: int| 0 <= j < r.0@.len() ==> r.0@[j] as int == #[trigger] saved_positions(p@, p@.len() as int)[j],
        r.1@.len() == p@.len(),
        forall|k: int| 0 <= k < p@.len() ==> r.1@[k] == saved(p@[k]),
{
    let ghost pv = p@;
    let mut positions: Vec<usize> = Vec::new();
    let mut saved_flags: Vec<bool> = Vec::new();
    let mut i: usize = 0;
    while i < p.instruments.len()
        invariant
            i <= pv.len(),
            pv == p@,
            pv.len() == p.instruments@.len(),
            saved_flags@.len() == i,
            forall|k: int| 0 <= k < i ==> saved_flags@[k] == saved(pv[k]),
            positions@.len() == saved_positions(pv, i as int).len(),
            forall|j: int| 0 <= j < positions@.len() ==> positions@[j] as int == #[trigger] saved_positions(pv, i as int)[j],
        decreases pv.len() - i,
    {
        assert(pv[i as int] == p.instruments@[i as int]@);
        let f = is_saved(&p.instruments[i].steps);
        saved_flags.push(f);
        if f {
            positions.push(i);
        }
        i = i + 1;
    }
    (positions, saved_flags)
}

fn saved_order_of(p: &Pattern) -> (r: Vec<usize>)
    requires
        saves_several(p@) ==> forall|k: int| 0 <= k < p@.len() && #[trigger] saved(p@[k]) ==> p@[k].synth_index is Some,
        forall|k: int| 0 <= k < p@.len() ==> (#[trigger] p@[k]).steps.len() == NUM_STEPS,
    ensures
        r@.len() == saved_order(p@).len(),
        forall|j: int| 0 <= j < r@.len() ==> r@[j] as int == #[trigger] saved_order(p@)[j],
{
    let ghost pv = p@;
    let (positions, saved_flags) = saved_positions_of(p);
    if positions.len() < 2 {
        return positions;
    }
    assert(saves_several(pv));
    let mut r: Vec<usize> = Vec::new();
    let mut k: u32 = 0;
    while k < 1024
        invariant
            k <= 1024,
            pv == p@,
            pv.len() == p.instruments@.len(),
            saved_flags@.len() == pv.len(),
            forall|q: int| 0 <= q < pv.len() ==> saved_flags@[q] == saved(pv[q]),
            forall|q: int| 0 <= q < pv.len() && #[trigger] saved(pv[q]) ==> pv[q].synth_index is Some,
            r@.len() == saved_order_upto(pv, k as int).len(),
            forall|j: int| 0 <= j < r@.len() ==> r@[j] as int == #[trigger] saved_order_upto(pv, k as int)[j],
        decreases 1024 - k,
    {
        let ghost before = r@;
        let mut ii: usize = 0;
        while ii < p.instruments.len()
            invariant
                ii <= pv.len(),
                pv == p@,
                pv.len() == p.instruments@.len(),
                saved_flags@.len() == pv.len(),
                forall|q: int| 0 <= q < pv.len() ==> saved_flags@[q] == saved(pv[q]),
                forall|q: int| 0 <= q < pv.len() && #[trigger] saved(pv[q]) ==> pv[q].synth_index is Some,
                r@.len() == before.len() + positions_with_key(pv, k as int, ii as int).len(),
                forall|j: int| 0 <= j < before.len() ==> r@[j] == before[j],
                forall|j: int|
                    0 <= j < positions_with_key(pv, k as int, ii as int).len() ==> r@[before.len() + j] as int
                        == #[trigger] positions_with_key(pv, k as int, ii as int)[j],
            decreases pv.len() - ii,
        {
            assert(pv[ii as int] == p.instruments@[ii as int]@);
            if saved_flags[ii] {
                match p.instruments[ii].synth_index {
                    Some(slot) => {
                        if Pattern::order(slot) == k {
                            r.push(ii);
                        }
                    },
                    None => {},
                }
            }
            ii = ii + 1;
        }
        k = k + 1;
    }
    r
}

/// Appends `t` centered in `w` characters.
fn push_centered(out: &mut String, t: &Vec<char>, w: usize)
    ensures
        final(out)@ == old(out)@ + centered(t@, w as int),
{
    if t.len() >= w {
        push_chars(out, t);
    } else {
        let pad = w - t.len();
        push_repeated(out, ' ', pad / 2);
        push_chars(out, t);
        push_repeated(out, ' ', pad - pad / 2);
    }
}

/// Appends a step's cell.
fn push_step_cell(out: &mut String, s: &InstrumentStep, w: usize)
    requires
        s.note == 0 || s.note >= 12,
    ensures
        final(out)@ == old(out)@ + step_cell(*s, w as int),
{
    push_char(out, '|');
    if s.note != 0 {
        let m = MidiNote(s.note as i32);
        let name = m.name();
        push_str(out, name.as_str());
    } else {
        push_char(out, ' ');
        push_char(out, '-');
        push_char(out, ' ');
    }
    push_char(out, if s.release { '.' } else { ' ' });
    let pt = params_chars(s);
    push_chars(out, &pt);
    if pt.len() < w {
        push_repeated(out, ' ', w - pt.len());
    } else {
        assert(repeated(' ', w - pt@.len()) =~= Seq::<char>::empty());
    }
    assert(out@ =~= old(out)@ + step_cell(*s, w as int));
}

/// Appends the table of a pattern's saved instruments (see `pattern_table`).
fn push_pattern_table(out: &mut String, p: &Pattern, order: &Vec<usize>)
    requires
        forall|j: int| 0 <= j < order@.len() ==> #[trigger] order@[j] < p@.len(),
        forall|k: int| 0 <= k < p@.len() ==> (#[trigger] p@[k]).steps.len() == NUM_STEPS,
        forall|j: int, s: int|
            0 <= j < order@.len() && 0 <= s < NUM_STEPS ==> (#[trigger] p@[order@[j] as int].steps[s]).note == 0
                || p@[order@[j] as int].steps[s].note >= 12,
    ensures
        final(out)@ == old(out)@ + pattern_table(p@, Seq::new(order@.len(), |j: int| order@[j] as int)),
{
    let ghost pv = p@;
    let ghost ord = Seq::new(order@.len(), |j: int| order@[j] as int);
    let n = order.len();
    let mut widths: Vec<usize> = Vec::new();
    let mut j: usize = 0;
    while j < n
        invariant
            j <= n,
            n == order@.len(),
            pv == p@,
            pv.len() == p.instruments@.len(),
            forall|q: int| 0 <= q < order@.len() ==> #[trigger] order@[q] < pv.len(),
            widths@.len() == j,
            forall|q: int| 0 <= q < j ==> widths@[q] == column_width(#[trigger] pv[order@[q] as int]),
        decreases n - j,
    {
        let ii = order[j];
        assert(pv[ii as int] == p.instruments@[ii as int]@);
        widths.push(column_width_of(&p.instruments[ii].steps));
        j = j + 1;
    }
    let ghost start = out@;
    let ghost header_f = |j: int| seq!['|'] + centered(pv[ord[j]].id, 4 + column_width(pv[ord[j]]));
    let mut j: usize = 0;
    while j < n
        invariant
            j <= n,
            n == order@.len(),
            pv == p@,
            pv.len() == p.instruments@.len(),
            ord == Seq::new(order@.len(), |q: int| order@[q] as int),
            forall|q: int| 0 <= q < order@.len() ==> #[trigger] order@[q] < pv.len(),
            widths@.len() == n,
            forall|q: int| 0 <= q < n ==> widths@[q] == column_width(#[trigger] pv[order@[q] as int]),
            header_f == (|j: int| seq!['|'] + centered(pv[ord[j]].id, 4 + column_width(pv[ord[j]]))),
            out@ == start + concat_map(j as int, header_f),
        decreases n - j,
    {
        let ii = order[j];
        assert(pv[ii as int] == p.instruments@[ii as int]@);
        push_char(out, '|');
        let id = chars_of(p.instruments[ii].id.as_str());
        if widths[j] > usize::MAX - 4 {
            proof {
                lemma_params_width_bound(pv[ii as int].steps, NUM_STEPS as int);
            }
        }
        push_centered(out, &id, 4 + widths[j]);
        assert(ord[j as int] == ii as int);
        assert(header_f(j as int) == seq!['|'] + centered(id@, 4 + widths[j as int]));
        assert(concat_map(j + 1, header_f) == concat_map(j as int, header_f) + header_f(j as int));
        assert(out@ =~= start + concat_map(j + 1, header_f));
        j = j + 1;
    }
    push_char(out, '|');
    push_char(out, '\n');
    let ghost mid = out@;
    let ghost sep_f = |j: int| seq!['|', '-', '-', '-', '-'] + repeated('-', column_width(pv[ord[j]]));
    let mut j: usize = 0;
    while j < n
        invariant
            j <= n,
            n == order@.len(),
            pv == p@,
            ord == Seq::new(order@.len(), |q: int| order@[q] as int),
            forall|q: int| 0 <= q < order@.len() ==> #[trigger] order@[q] < pv.len(),
            widths@.len() == n,
            forall|q: int| 0 <= q < n ==> widths@[q] == column_width(#[trigger] pv[order@[q] as int]),
            sep_f == (|j: int| seq!['|', '-', '-', '-', '-'] + repeated('-', column_width(pv[ord[j]]))),
            out@ == mid + concat_map(j as int, sep_f),
        decreases n - j,
    {
        push_char(out, '|');
        push_char(out, '-');
        push_char(out, '-');
        push_char(out, '-');
        push_char(out, '-');
        push_repeated(out, '-', widths[j]);
        assert(ord[j as int] == order@[j as int] as int);
        assert(sep_f(j as int) == seq!['|', '-', '-', '-', '-'] + repeated('-', widths[j as int] as int));
        assert(concat_map(j + 1, sep_f) == concat_map(j as int, sep_f) + sep_f(j as int));
        assert(out@ =~= mid + concat_map(j + 1, sep_f));
        j = j + 1;
    }
    push_char(out, '|');
    push_char(out, '\n');
    let ghost rows_start = out@;
    let ghost row_f = |si: int| concat_map(n as int, |j: int| step_cell(pv[ord[j]].steps[si], column_width(pv[ord[j]]))) + seq!['|', '\n'];
    let mut si: usize = 0;
    while si < NUM_STEPS
        invariant
            si <= NUM_STEPS,
            n == order@.len(),
            pv == p@,
            pv.len() == p.instruments@.len(),
            ord == Seq::new(order@.len(), |q: int| order@[q] as int),
            forall|q: int| 0 <= q < order@.len() ==> #[trigger] order@[q] < pv.len(),
            forall|k: int| 0 <= k < pv.len() ==> (#[trigger] pv[k]).steps.len() == NUM_STEPS,
            forall|q: int, s: int|
                0 <= q < order@.len() && 0 <= s < NUM_STEPS ==> (#[trigger] pv[order@[q] as int].steps[s]).note == 0
                    || pv[order@[q] as int].steps[s].note >= 12,
            widths@.len() == n,
            forall|q: int| 0 <= q < n ==> widths@[q] == column_width(#[trigger] pv[order@[q] as int]),
            row_f == (|si: int| concat_map(n as int, |j: int| step_cell(pv[ord[j]].steps[si], column_width(pv[ord[j]]))) + seq!['|', '\n']),
            out@ == rows_start + concat_map(si as int, row_f),
        decreases NUM_STEPS - si,
    {
        let ghost row_start = out@;
        let ghost cell_f = |j: int| step_cell(pv[ord[j]].steps[si as int], column_width(pv[ord[j]]));
        let mut j: usize = 0;
        while j < n
            invariant
                j <= n,
                si < NUM_STEPS,
                n == order@.len(),
                pv == p@,
                pv.len() == p.instruments@.len(),
                ord == Seq::new(order@.len(), |q: int| order@[q] as int),
                forall|q: int| 0 <= q < order@.len() ==> #[trigger] order@[q] < pv.len(),
                forall|q: int, s: int|
                    0 <= q < order@.len() && 0 <= s < NUM_STEPS ==> (#[trigger] pv[order@[q] as int].steps[s]).note == 0
                        || pv[order@[q] as int].steps[s].note >= 12,
                widths@.len() == n,
                forall|q: int| 0 <= q < n ==> widths@[q] == column_width(#[trigger] pv[order@[q] as int]),
                cell_f == (|j: int| step_cell(pv[ord[j]].steps[si as int], column_width(pv[ord[j]]))),
                out@ == row_start + concat_map(j as int, cell_f),
            decreases n - j,
        {
            let ii = order[j];
            assert(pv[ii as int] == p.instruments@[ii as int]@);
            assert(pv[ord[j as int]].steps[si as int] == p.instruments@[ii as int].steps@[si as int]);
            push_step_cell(out, &p.instruments[ii].steps[si], widths[j]);
            assert(ord[j as int] == ii as int);
            assert(cell_f(j as int) == step_cell(p.instruments@[ii as int].steps@[si as int], widths[j as int] as int));
            assert(concat_map(j + 1, cell_f) == concat_map(j as int, cell_f) + cell_f(j as int));
            assert(out@ =~= row_start + concat_map(j + 1, cell_f));
            j = j + 1;
        }
        push_char(out, '|');
        push_char(out, '\n');
        assert(concat_map(n as int, cell_f) == concat_map(n as int, |j: int| step_cell(pv[ord[j]].steps[si as int], column_width(pv[ord[j]]))));
        assert(out@ =~= rows_start + concat_map(si + 1, row_f));
        si = si + 1;
    }
    push_char(out, '\n');
    assert(out@ =~= start + pattern_table(pv, ord));
}

proof fn lemma_params_width_bound(steps: Seq<InstrumentStep>, n: int)
    ensures
        params_width(steps, n) <= 13,
    decreases n,
{
    if n > 0 {
        lemma_params_width_bound(steps, n - 1);
        lemma_params_text_len(steps[n - 1]);
    }
}

proof fn lemma_params_text_len(s: InstrumentStep)
    ensures
        params_text(s).len() <= 13,
{
    if let Some(a) = s.param0 {
        lemma_signed_decimal_len(a);
    }
    if let Some(b) = s.param1 {
        lemma_signed_decimal_len(b);
    }
}

proof fn lemma_signed_decimal_len(v: i8)
    ensures
        signed_decimal(v as int).len() <= 4,
{
    let a: nat = if v < 0 { (-(v as int)) as nat } else { v as nat };
    assert(a < 1000);
    reveal_with_fuel(decimal, 3);
}

proof fn lemma_positions_valid(p: Seq<InstrumentView>, k: int, n: int)
    requires
        0 <= n <= p.len(),
    ensures
        forall|j: int|
            0 <= j < positions_with_key(p, k, n).len() ==> 0 <= #[trigger] positions_with_key(p, k, n)[j] < n
                && saved(p[positions_with_key(p, k, n)[j]]),
    decreases n,
{
    if n > 0 {
        lemma_positions_valid(p, k, n - 1);
        let a = positions_with_key(p, k, n - 1);
        let b: Seq<int> = if saved(p[n - 1]) && slot_key(p[n - 1]) == k { seq![n - 1] } else { Seq::empty() };
        assert(positions_with_key(p, k, n) == a + b);
        assert forall|j: int| 0 <= j < (a + b).len() implies 0 <= #[trigger] (a + b)[j] < n && saved(p[(a + b)[j]]) by {
            if j >= a.len() {
                assert((a + b)[j] == b[j - a.len()]);
            } else {
                assert((a + b)[j] == a[j]);
            }
        }
    }
}

proof fn lemma_saved_order_valid(p: Seq<InstrumentView>, k: int)
    ensures
        forall|j: int|
            0 <= j < saved_order_upto(p, k).len() ==> 0 <= #[trigger] saved_order_upto(p, k)[j] < p.len()
                && saved(p[saved_order_upto(p, k)[j]]),
    decreases k,
{
    if k > 0 {
        lemma_saved_order_valid(p, k - 1);
        lemma_positions_valid(p, k - 1, p.len() as int);
        let a = saved_order_upto(p, k - 1);
        let b = positions_with_key(p, k - 1, p.len() as int);
        assert forall|j: int| 0 <= j < (a + b).len() implies 0 <= #[trigger] (a + b)[j] < p.len() && saved(p[(a + b)[j]]) by {
            if j >= a.len() {
                assert((a + b)[j] == b[j - a.len()]);
            }
        }
    }
}

/// Whether one instrument can be written: when it presses or releases, it has a slot if
/// one is needed, and its notes have names.
fn instrument_writable(ins: &Instrument, needs_slot: bool) -> (r: bool)
    ensures
        r == (saved(ins@) ==> {
            &&& needs_slot ==> ins@.synth_index is Some
            &&& forall|s: int| 0 <= s < ins@.steps.len() ==> (#[trigger] ins@.steps[s]).note == 0 || ins@.steps[s].note >= 12
        }),
{
    if !is_saved(&ins.steps) {
        return true;
    }
    if needs_slot && ins.synth_index.is_none() {
        return false;
    }
    let mut i: usize = 0;
    while i < NUM_STEPS
        invariant
            i <= NUM_STEPS,
            ins@.steps == ins.steps@,
            ins.steps@.len() == NUM_STEPS,
            forall|s: int| 0 <= s < i ==> (#[trigger] ins@.steps[s]).note == 0 || ins@.steps[s].note >= 12,
        decreases NUM_STEPS - i,
    {
        let note = ins.steps[i].note;
        if note != 0 && note < 12 {
            return false;
        }
        i = i + 1;
    }
    true
}

/// The instruments of a pattern, as a pattern of the song, can be written.
pub open spec fn pattern_writable(p: Seq<InstrumentView>, k: int) -> bool {
    saved(p[k]) ==> {
        &&& saves_several(p) ==> p[k].synth_index is Some
        &&& forall|s: int| 0 <= s < p[k].steps.len() ==> (#[trigger] p[k].steps[s]).note == 0 || p[k].steps[s].note >= 12
    }
}

/// Whether a song can be written (see `writable`).
pub fn is_writable(song: &SequencerSong) -> (r: bool)
    requires
        song_structure_wf(song@),
    ensures
        r == writable(song@),
{
    let ghost sv = song@;
    let mut pi: usize = 0;
    while pi < song.patterns.len()
        invariant
            pi <= song.patterns@.len(),
            sv == song@,
            song_structure_wf(sv),
            sv.patterns.len() == song.patterns@.len(),
            forall|p: int, k: int| 0 <= p < pi && 0 <= k < sv.patterns[p].len() ==> #[trigger] pattern_writable(sv.patterns[p], k),
        decreases song.patterns@.len() - pi,
    {
        let p = &song.patterns[pi];
        assert(sv.patterns[pi as int] == p@);
        assert forall|k: int| 0 <= k < p@.len() implies (#[trigger] p@[k]).steps.len() == NUM_STEPS by {
            assert(sv.patterns[pi as int][k].steps.len() == NUM_STEPS);
        }
        let (positions, _flags) = saved_positions_of(p);
        let several = positions.len() >= 2;
        let mut k: usize = 0;
        while k < p.instruments.len()
            invariant
                pi < song.patterns@.len(),
                p == &song.patterns[pi as int],
                sv == song@,
                sv.patterns[pi as int] == p@,
                p@.len() == p.instruments@.len(),
                k <= p.instruments@.len(),
                several == saves_several(p@),
                forall|p2: int, k2: int| 0 <= p2 < pi && 0 <= k2 < sv.patterns[p2].len() ==> #[trigger] pattern_writable(sv.patterns[p2], k2),
                forall|k2: int| 0 <= k2 < k ==> #[trigger] pattern_writable(sv.patterns[pi as int], k2),
            decreases p.instruments@.len() - k,
        {
            assert(p@[k as int] == p.instruments@[k as int]@);
            if !instrument_writable(&p.instruments[k], several) {
                assert(!writable(sv)) by {
                    assert(!pattern_writable(sv.patterns[pi as int], k as int));
                    assert(saved(sv.patterns[pi as int][k as int]));
                }
                return false;
            }
            k = k + 1;
        }
        pi = pi + 1;
    }
    assert forall|p: int, k: int|
        0 <= p < sv.patterns.len() && 0 <= k < sv.patterns[p].len() && #[trigger] saved(sv.patterns[p][k]) implies {
            &&& saves_several(sv.patterns[p]) ==> sv.patterns[p][k].synth_index is Some
            &&& forall|s: int|
                0 <= s < sv.patterns[p][k].steps.len() ==> (#[trigger] sv.patterns[p][k].steps[s]).note == 0
                    || sv.patterns[p][k].steps[s].note >= 12
        } by {
        assert(pattern_writable(sv.patterns[p], k));
    }
    true
}

proof fn lemma_saved_positions_valid(p: Seq<InstrumentView>, n: int)
    requires
        n <= p.len(),
    ensures
        forall|j: int|
            0 <= j < saved_positions(p, n).len() ==> 0 <= #[trigger] saved_positions(p, n)[j] < p.len()
                && saved(p[saved_positions(p, n)[j]]),
    decreases n,
{
    if n > 0 {
        lemma_saved_positions_valid(p, n - 1);
        let a = saved_positions(p, n - 1);
        let b: Seq<int> = if saved(p[n - 1]) { seq![n - 1] } else { Seq::empty() };
        assert forall|j: int| 0 <= j < (a + b).len() implies 0 <= #[trigger] (a + b)[j] < p.len() && saved(p[(a + b)[j]]) by {
            if j >= a.len() {
                assert((a + b)[j] == b[j - a.len()]);
            }
        }
    }
}

/// The markdown text of a song, as its file holds it (see `song_text`).
#[verifier::spinoff_prover]
#[verifier::rlimit(60)]
pub fn song_to_markdown(song: &SequencerSong) -> (r: String)
    requires
        song_wf(song@),
        writable(song@),
    ensures
        r@ == song_text(song@),
{
    let ghost sv = song@;
    let mut out = song.markdown_header.clone();
    let n = song.song_patterns.len();
    if n > 0 {
        push_str(&mut out, "## Song\n\n");
        let ghost list_start = out@;
        let ghost item_f = |i: int|
            "- [Pattern "@ + decimal((sv.song_patterns[i] + 1) as nat) + "](#pattern-"@ + decimal(
                (sv.song_patterns[i] + 1) as nat,
            ) + seq![')', '\n'];
        let mut i: usize = 0;
        while i < n
            invariant
                i <= n,
                n == sv.song_patterns.len(),
                sv == song@,
                song_wf(sv),
                item_f == (|i: int|
                    "- [Pattern "@ + decimal((sv.song_patterns[i] + 1) as nat) + "](#pattern-"@ + decimal(
                        (sv.song_patterns[i] + 1) as nat,
                    ) + seq![')', '\n']),
                out@ == list_start + concat_map(i as int, item_f),
            decreases n - i,
        {
            let num = song.song_patterns[i];
            assert(num < NUM_PATTERNS);
            let digits = decimal_chars((num + 1) as u64);
            push_str(&mut out, "- [Pattern ");
            push_chars(&mut out, &digits);
            push_str(&mut out, "](#pattern-");
            push_chars(&mut out, &digits);
            push_char(&mut out, ')');
            push_char(&mut out, '\n');
            assert(concat_map(i + 1, item_f) == concat_map(i as int, item_f) + item_f(i as int));
            assert(out@ =~= list_start + concat_map(i + 1, item_f));
            i = i + 1;
        }
        push_char(&mut out, '\n');
    }
    assert(out@ =~= sv.markdown_header + song_section(sv.song_patterns));
    let ghost patterns_start = out@;
    let ghost section_f = |pi: int| pattern_section(pi, sv.patterns[pi]);
    let mut pi: usize = 0;
    while pi < song.patterns.len()
        invariant
            pi <= sv.patterns.len(),
            sv == song@,
            sv.patterns.len() == song.patterns@.len(),
            song_wf(sv),
            writable(sv),
            section_f == (|pi: int| pattern_section(pi, sv.patterns[pi])),
            out@ == patterns_start + concat_map(pi as int, section_f),
        decreases sv.patterns.len() - pi,
    {
        let p = &song.patterns[pi];
        assert(sv.patterns[pi as int] == p@);
        let ghost pv = p@;
        assert(saves_several(pv) ==> forall|k: int| 0 <= k < pv.len() && #[trigger] saved(pv[k]) ==> pv[k].synth_index is Some) by {
            assert forall|k: int| 0 <= k < pv.len() && #[trigger] saved(pv[k]) && saves_several(pv) implies pv[k].synth_index is Some by {
                assert(saved(sv.patterns[pi as int][k]));
            }
        }
        assert forall|k: int| 0 <= k < pv.len() implies (#[trigger] pv[k]).steps.len() == NUM_STEPS by {
            assert(sv.patterns[pi as int][k].steps.len() == NUM_STEPS);
        }
        let order = saved_order_of(p);
        proof {
            lemma_saved_order_valid(pv, num_keys());
            lemma_saved_positions_valid(pv, pv.len() as int);
            assert(Seq::new(order@.len(), |j: int| order@[j] as int) =~= saved_order(pv));
        }
        if order.len() > 0 {
            push_str(&mut out, "## Pattern ");
            let digits = decimal_chars((pi + 1) as u64);
            push_chars(&mut out, &digits);
            push_char(&mut out, '\n');
            push_char(&mut out, '\n');
            proof {
                assert forall|j: int| 0 <= j < order@.len() implies #[trigger] order@[j] < pv.len() by {
                    assert(order@[j] as int == saved_order(pv)[j]);
                }
                assert forall|j: int, s: int|
                    0 <= j < order@.len() && 0 <= s < NUM_STEPS implies (#[trigger] pv[order@[j] as int].steps[s]).note == 0
                        || pv[order@[j] as int].steps[s].note >= 12 by {
                    assert(order@[j] as int == saved_order(pv)[j]);
                    assert(saved(sv.patterns[pi as int][order@[j] as int]));
                }
            }
            push_pattern_table(&mut out, p, &order);
        }
        assert(concat_map(pi + 1, section_f) == concat_map(pi as int, section_f) + section_f(pi as int));
        assert(out@ =~= patterns_start + concat_map(pi + 1, section_f));
        pi = pi + 1;
    }
    push_str(&mut out, "## Settings\n\n- InstrumentsFile: ");
    push_str(&mut out, song.instruments_file.as_str());
    push_str(&mut out, "\n- FramesPerStep: ");
    let digits = decimal_chars(song.frames_per_step as u64);
    push_chars(&mut out, &digits);
    push_char(&mut out, '\n');
    push_char(&mut out, '\n');
    assert(out@ =~= song_text(sv));
    out
}

proof fn lemma_decimal_reads_back(n: nat)
    ensures
        all_digits(decimal(n)),
        digits_value(decimal(n)) == n,
    decreases n,
{
    if n >= 10 {
        lemma_decimal_reads_back(n / 10);
        let d = decimal(n / 10);
        let t = d.push(digit_char((n % 10) as int));
        assert(t.drop_last() =~= d);
        assert(t.last() as int - 48 == n % 10);
        assert(digits_value(t) == (n / 10) * 10 + n % 10);
        assert(crate::text::is_digit(t.last()));
        assert forall|i: int| 0 <= i < t.len() implies crate::text::is_digit(#[trigger] t[i]) by {
            if i < d.len() {
                assert(t[i] == d[i]);
            }
        }
        assert(t == decimal(n));
    } else {
        let t = seq![digit_char(n as int)];
        assert(t.drop_last() =~= Seq::<char>::empty());
        assert(crate::text::is_digit(t[0]));
        assert(t.last() as int - 48 == n);
        assert(digits_value(t) == digits_value(t.drop_last()) * 10 + (t.last() as int - 48));
        assert(t == decimal(n));
    }
}

proof fn lemma_signed_decimal_reads_back(v: i8)
    ensures
        spec_param_value(signed_decimal(v as int)) == Ok::<Option<i8>, crate::markdown::SongParseErrorView>(Some(v)),
        forall|i: int| 0 <= i < signed_decimal(v as int).len() ==> #[trigger] signed_decimal(v as int)[i] != '/',
{
    let t = signed_decimal(v as int);
    if v < 0 {
        let d = decimal((-v) as nat);
        lemma_decimal_reads_back((-v) as nat);
        assert(t.drop_first() =~= d);
        assert(t[0] == '-');
        assert(spec_parse_int(t, true) == Some(v as int));
        assert forall|i: int| 0 <= i < t.len() implies #[trigger] t[i] != '/' by {
            if i > 0 {
                assert(t[i] == d[i - 1]);
            }
        }
    } else {
        lemma_decimal_reads_back(v as nat);
        assert(t[0] != '+' && t[0] != '-');
        assert(spec_parse_int(t, true) == Some(v as int));
    }
}

proof fn lemma_split_slash_nonempty_here(s: Seq<char>)
    ensures
        split_slash(s).len() >= 1,
    decreases s.len(),
{
    if s.len() > 0 {
        lemma_split_slash_nonempty_here(s.drop_last());
    }
}

/// Appending text without `/` extends the last part of a split.
proof fn lemma_split_slash_extend(p: Seq<char>, t: Seq<char>)
    requires
        forall|i: int| 0 <= i < t.len() ==> #[trigger] t[i] != '/',
    ensures
        split_slash(p + t) == split_slash(p).update(split_slash(p).len() - 1, split_slash(p).last() + t),
    decreases t.len(),
{
    lemma_split_slash_nonempty_here(p);
    let sp = split_slash(p);
    if t.len() == 0 {
        assert(p + t =~= p);
        assert(sp.last() + t =~= sp.last());
        assert(sp.update(sp.len() - 1, sp.last()) =~= sp);
    } else {
        let t2 = t.drop_last();
        lemma_split_slash_extend(p, t2);
        assert((p + t).drop_last() =~= p + t2);
        assert((p + t).last() == t.last());
        assert((sp.last() + t2).push(t.last()) =~= sp.last() + t);
        assert(split_slash(p + t) =~= sp.update(sp.len() - 1, sp.last() + t));
    }
}

/// The parameters written after a step's note read back as the same parameters: the
/// inline code between the backticks of `params_text` sets the first parameter from the
/// part before `/` and the second from the part after it, on a step whose parameters
/// are not set yet.
pub proof fn lemma_params_text_reads_back(s: InstrumentStep, base: InstrumentStep)
    requires
        s.param0 is Some || s.param1 is Some,
        base.param0 is None,
        base.param1 is None,
    ensures
        ({
            let t = params_text(s);
            &&& t.len() >= 3
            &&& t[0] == ' ' && t[1] == '`' && t[t.len() - 1] == '`'
            &&& spec_step_params(base, t.subrange(2, t.len() - 1)) == Ok::<InstrumentStep, crate::markdown::SongParseErrorView>(
                InstrumentStep { param0: s.param0, param1: s.param1, ..base },
            )
        }),
{
    let t = params_text(s);
    let e = Seq::<char>::empty();
    assert(split_slash(e) == seq![e]);
    match (s.param0, s.param1) {
        (Some(a), Some(b)) => {
            let da = signed_decimal(a as int);
            let db = signed_decimal(b as int);
            lemma_signed_decimal_reads_back(a);
            lemma_signed_decimal_reads_back(b);
            let code = da + seq!['/'] + db;
            assert(t =~= seq![' ', '`'] + code + seq!['`']);
            assert(t.subrange(2, t.len() - 1) =~= code);
            lemma_split_slash_extend(e, da);
            assert(e + da =~= da);
            assert(split_slash(da) =~= seq![da]);
            assert((da + seq!['/']).drop_last() =~= da);
            assert(split_slash(da + seq!['/']) =~= seq![da, e]);
            lemma_split_slash_extend(da + seq!['/'], db);
            assert(split_slash(code) =~= seq![da, db]);
        },
        (Some(a), None) => {
            let da = signed_decimal(a as int);
            lemma_signed_decimal_reads_back(a);
            assert(t =~= seq![' ', '`'] + da + seq!['`']);
            assert(t.subrange(2, t.len() - 1) =~= da);
            lemma_split_slash_extend(e, da);
            assert(e + da =~= da);
            assert(split_slash(da) =~= seq![da]);
        },
        (None, Some(b)) => {
            let db = signed_decimal(b as int);
            lemma_signed_decimal_reads_back(b);
            let code = seq!['/'] + db;
            assert(t =~= seq![' ', '`'] + code + seq!['`']);
            assert(t.subrange(2, t.len() - 1) =~= code);
            let sl = seq!['/'];
            assert(sl.drop_last() =~= e);
            assert(split_slash(sl) =~= seq![e, e]);
            lemma_split_slash_extend(sl, db);
            assert(split_slash(code) =~= seq![e, db]);
            assert(spec_param_value(e) == Ok::<Option<i8>, crate::markdown::SongParseErrorView>(None));
        },
        (None, None) => {},
    }
}

} // verus!
