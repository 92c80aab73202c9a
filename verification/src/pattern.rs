use vstd::prelude::*;
use crate::consts::NUM_STEPS;
use crate::step::InstrumentStep;

verus! {

/// The steps of one instrument within a pattern.
pub struct Instrument {
    /// The instrument's identifier as the song file names it.
    pub id: String,
    /// The instrument's slot among the loaded instruments, once known.
    pub synth_index: Option<u8>,
    pub steps: [InstrumentStep; NUM_STEPS],
}

/// A pattern: the instruments that it sequences, in the order they were added.
pub struct Pattern {
    pub instruments: Vec<Instrument>,
}

/// What an instrument of a pattern holds, as plain values.
pub struct InstrumentView {
    pub id: Seq<char>,
    pub synth_index: Option<u8>,
    pub steps: Seq<InstrumentStep>,
}

impl View for Instrument {
    type V = InstrumentView;

    open spec fn view(&self) -> InstrumentView {
        InstrumentView { id: self.id@, synth_index: self.synth_index, steps: self.steps@ }
    }
}

/// The plain values of a sequence of instruments.
pub open spec fn instrument_views(v: Seq<Instrument>) -> Seq<InstrumentView> {
    Seq::new(v.len(), |i: int| v[i]@)
}

impl View for Pattern {
    type V = Seq<InstrumentView>;

    open spec fn view(&self) -> Seq<InstrumentView> {
        instrument_views(self.instruments@)
    }
}

/// The sort key of an instrument slot: instruments are laid out in rows of four, and are
/// ordered column first by moving the two column bits above the row bits.
pub open spec fn spec_order(a: u8) -> u32 {
    (a + (a % 4) * 256) as u32
}

/// How far instrument `a` lies after `target` in slot order, wrapping around.
pub open spec fn wrapped_distance(a: u8, target: u8) -> int {
    let d = spec_order(a) as int - spec_order(target) as int;
    if d >= 0 {
        d
    } else {
        d + 0x1_0000_0000
    }
}

/// Whether `a` is nearer than `b` to `target` in the given direction.
pub open spec fn nearer(forward: bool, a: u8, b: u8, target: u8) -> bool {
    if forward {
        wrapped_distance(a, target) < wrapped_distance(b, target)
    } else {
        wrapped_distance(a, target) > wrapped_distance(b, target)
    }
}

/// The slot of instrument `k`, if it has one.
pub open spec fn slot_of(instruments: Seq<InstrumentView>, k: int) -> Option<u8> {
    instruments[k].synth_index
}

pub open spec fn has_slot(instruments: Seq<InstrumentView>, k: int, v: u8) -> bool {
    slot_of(instruments, k) == Some(v)
}

/// `k` is the first position of an instrument in slot `v`.
pub open spec fn is_first_with_slot(instruments: Seq<InstrumentView>, v: u8, k: int) -> bool {
    &&& 0 <= k < instruments.len()
    &&& has_slot(instruments, k, v)
    &&& forall|j: int| 0 <= j < k ==> !has_slot(instruments, j, v)
}

/// The result of looking for the instrument nearest to `target`: the first instrument in
/// that slot when there is one, else the first instrument of those nearest to it in
/// the given direction; `None` when no instrument has a slot.
pub open spec fn is_nearest(instruments: Seq<InstrumentView>, target: u8, forward: bool, r: Option<(usize, u8)>) -> bool {
    match r {
        None => forall|j: int| 0 <= j < instruments.len() ==> slot_of(instruments, j) is None,
        Some((k, v)) => {
            &&& 0 <= k < instruments.len()
            &&& has_slot(instruments, k as int, v)
            &&& if exists|j: int| 0 <= j < instruments.len() && #[trigger] has_slot(instruments, j, target) {
                is_first_with_slot(instruments, target, k as int)
            } else {
                &&& forall|j: int|
                    0 <= j < k && #[trigger] slot_of(instruments, j) is Some ==> nearer(
                        forward,
                        v,
                        slot_of(instruments, j)->0,
                        target,
                    )
                &&& forall|j: int|
                    k < j < instruments.len() && #[trigger] slot_of(instruments, j) is Some
                        ==> !nearer(forward, slot_of(instruments, j)->0, v, target)
            }
        },
    }
}

/// The position visited after `k` moves from `start` through `len` positions, cycling.
pub open spec fn cycle_pos(start: int, k: int, len: int, forward: bool) -> int {
    if forward {
        (start + k) % len
    } else {
        (start + len - k) % len
    }
}

/// The slot of the first instrument with a slot met when cycling from `start` (excluded),
/// visiting every other instrument once, starting at the `k`th move.
pub open spec fn first_slot_cycling(instruments: Seq<InstrumentView>, start: int, forward: bool, k: int) -> Option<u8>
    decreases instruments.len() - k,
{
    if k >= instruments.len() || k < 1 {
        None
    } else {
        match slot_of(instruments, cycle_pos(start, k, instruments.len() as int, forward)) {
            Some(v) => Some(v),
            None => first_slot_cycling(instruments, start, forward, k + 1),
        }
    }
}

proof fn lemma_first_slot_cycling_is_slot(instruments: Seq<InstrumentView>, start: int, forward: bool, k: int)
    requires
        0 <= start < instruments.len(),
    ensures
        first_slot_cycling(instruments, start, forward, k) matches Some(v) ==> exists|j: int|
            0 <= j < instruments.len() && #[trigger] has_slot(instruments, j, v),
    decreases instruments.len() - k,
{
    if k < instruments.len() && k >= 1 {
        let pos = cycle_pos(start, k, instruments.len() as int, forward);
        assert(0 <= pos < instruments.len());
        if slot_of(instruments, pos) is None {
            lemma_first_slot_cycling_is_slot(instruments, start, forward, k + 1);
        } else {
            assert(has_slot(instruments, pos, slot_of(instruments, pos)->0));
        }
    }
}

/// The instrument to select next among those of a pattern.
pub open spec fn spec_next_instrument(instruments: Seq<InstrumentView>, current: u8, forward: bool, nearest: Option<(usize, u8)>) -> Option<u8> {
    match nearest {
        Some((ii, i)) => if i == current {
            first_slot_cycling(instruments, ii as int, forward, 1)
        } else {
            Some(i)
        },
        None => None,
    }
}

/// The steps of the first instrument in slot `v`, if any.
pub open spec fn steps_in_slot(instruments: Seq<InstrumentView>, v: u8) -> Option<Seq<InstrumentStep>> {
    if exists|k: int| is_first_with_slot(instruments, v, k) {
        Some(instruments[choose|k: int| is_first_with_slot(instruments, v, k)].steps)
    } else {
        None
    }
}

/// The instruments of a pattern without those in slot `v`.
pub open spec fn without_slot(instruments: Seq<InstrumentView>, v: u8) -> Seq<InstrumentView> {
    instruments.filter(|i: InstrumentView| i.synth_index != Some(v))
}

proof fn lemma_without_slot_push(s: Seq<InstrumentView>, x: InstrumentView, v: u8)
    ensures
        without_slot(s.push(x), v) == if x.synth_index != Some(v) {
            without_slot(s, v).push(x)
        } else {
            without_slot(s, v)
        },
{
    reveal_with_fuel(Seq::filter, 1);
    assert(s.push(x).drop_last() =~= s);
    assert(s.push(x).last() == x);
}

proof fn lemma_id_position_push(s: Seq<InstrumentView>, id: Seq<char>, x: InstrumentView)
    requires
        id_position(s, id) == s.len(),
        x.id == id,
    ensures
        id_position(s.push(x), id) == s.len(),
{
    lemma_id_position_from_push(s, id, x, 0);
}

proof fn lemma_id_position_from_push(s: Seq<InstrumentView>, id: Seq<char>, x: InstrumentView, k: int)
    requires
        0 <= k <= s.len(),
        id_position_from(s, id, k) == s.len(),
        x.id == id,
    ensures
        id_position_from(s.push(x), id, k) == s.len(),
    decreases s.len() - k,
{
    if k < s.len() {
        lemma_id_position_from_push(s, id, x, k + 1);
    }
}

/// Sixteen steps that do nothing.
pub open spec fn empty_steps() -> Seq<InstrumentStep> {
    Seq::new(NUM_STEPS as nat, |i: int| InstrumentStep::spec_empty())
}

/// The position of the first instrument with identifier `id` at or after `k`, or the
/// number of instruments when there is none.
pub open spec fn id_position_from(instruments: Seq<InstrumentView>, id: Seq<char>, k: int) -> int
    decreases instruments.len() - k,
{
    if k >= instruments.len() || k < 0 {
        instruments.len() as int
    } else if instruments[k].id == id {
        k
    } else {
        id_position_from(instruments, id, k + 1)
    }
}

/// The position of the first instrument with identifier `id`, or the number of instruments.
pub open spec fn id_position(instruments: Seq<InstrumentView>, id: Seq<char>) -> int {
    id_position_from(instruments, id, 0)
}

proof fn lemma_id_position_from_bounds(instruments: Seq<InstrumentView>, id: Seq<char>, k: int)
    requires
        0 <= k,
    ensures
        k <= id_position_from(instruments, id, k) <= instruments.len() || id_position_from(instruments, id, k) == instruments.len(),
        id_position_from(instruments, id, k) < instruments.len() ==> instruments[id_position_from(instruments, id, k)].id == id,
    decreases instruments.len() - k,
{
    if k < instruments.len() && instruments[k].id != id {
        lemma_id_position_from_bounds(instruments, id, k + 1);
    }
}

/// After `with_instrument`, an instrument with identifier `id` exists, and the first one
/// keeps the slot it had, or gets `synth_index` when it is new.
pub proof fn lemma_with_instrument_position(instruments: Seq<InstrumentView>, id: Seq<char>, synth_index: Option<u8>)
    ensures
        ({
            let s1 = with_instrument(instruments, id, synth_index);
            let k = id_position(s1, id);
            &&& 0 <= k < s1.len()
            &&& s1[k].id == id
            &&& id_position(instruments, id) < instruments.len() ==> s1 == instruments
            &&& id_position(instruments, id) >= instruments.len() ==> {
                &&& k == instruments.len()
                &&& s1 == instruments.push(InstrumentView { id, synth_index, steps: empty_steps() })
            }
        }),
{
    lemma_id_position_from_bounds(instruments, id, 0);
    let s1 = with_instrument(instruments, id, synth_index);
    if id_position(instruments, id) >= instruments.len() {
        lemma_id_position_push(instruments, id, InstrumentView { id, synth_index, steps: empty_steps() });
    }
    lemma_id_position_from_bounds(s1, id, 0);
}

/// The instruments after adding, when none has identifier `id`, an instrument with that
/// identifier, slot `synth_index` and empty steps at the end.
pub open spec fn with_instrument(instruments: Seq<InstrumentView>, id: Seq<char>, synth_index: Option<u8>) -> Seq<InstrumentView> {
    if id_position(instruments, id) < instruments.len() {
        instruments
    } else {
        instruments.push(InstrumentView { id, synth_index, steps: empty_steps() })
    }
}

/// The instruments of a pattern other than those with identifier `id`, in order.
pub open spec fn others(instruments: Seq<InstrumentView>, id: Seq<char>) -> Seq<InstrumentView> {
    instruments.filter(|i: InstrumentView| i.id != id)
}

/// Some instrument of a pattern has identifier `id`.
pub open spec fn has_id(instruments: Seq<InstrumentView>, id: Seq<char>) -> bool {
    exists|j: int| 0 <= j < instruments.len() && #[trigger] instruments[j].id == id
}

/// No two instruments of a pattern have the same identifier.
pub open spec fn distinct_ids(instruments: Seq<InstrumentView>) -> bool {
    forall|j: int, k: int| 0 <= j < k < instruments.len() ==> #[trigger] instruments[j].id != #[trigger] instruments[k].id
}

/// The steps of instrument `id` after a change of step `step` (see `spec_set_step_events`);
/// a missing instrument starts from empty steps.
pub open spec fn changed_steps(
    instruments: Seq<InstrumentView>,
    slot: u8,
    id: Seq<char>,
    step: int,
    set_press_note: Option<Option<u8>>,
    set_release: Option<bool>,
    set_params: Option<(Option<i8>, Option<i8>)>,
) -> Seq<InstrumentStep> {
    let s1 = with_instrument(instruments, id, Some(slot));
    let k = id_position(s1, id);
    s1[k].steps.update(step, applied_step(s1[k].steps[step], set_press_note, set_release, set_params))
}

proof fn lemma_others_push(s: Seq<InstrumentView>, x: InstrumentView, id: Seq<char>)
    ensures
        others(s.push(x), id) == if x.id != id {
            others(s, id).push(x)
        } else {
            others(s, id)
        },
{
    reveal_with_fuel(Seq::filter, 1);
    assert(s.push(x).drop_last() =~= s);
    assert(s.push(x).last() == x);
}

/// Replacing an instrument with identifier `id` by another with that identifier leaves
/// the other instruments as they were.
proof fn lemma_others_update(s: Seq<InstrumentView>, k: int, x: InstrumentView, id: Seq<char>)
    requires
        0 <= k < s.len(),
        s[k].id == id,
        x.id == id,
    ensures
        others(s.update(k, x), id) == others(s, id),
    decreases s.len(),
{
    let d = s.drop_last();
    assert(s =~= d.push(s.last()));
    if k == s.len() - 1 {
        assert(s.update(k, x) =~= d.push(x));
        lemma_others_push(d, x, id);
        lemma_others_push(d, s.last(), id);
    } else {
        assert(s.update(k, x) =~= d.update(k, x).push(s.last()));
        lemma_others_update(d, k, x, id);
        lemma_others_push(d.update(k, x), s.last(), id);
        lemma_others_push(d, s.last(), id);
    }
}

/// Taking away the instruments in slot `slot`, which all have identifier `id`, leaves the
/// other instruments as they were.
proof fn lemma_others_without_slot(s: Seq<InstrumentView>, slot: u8, id: Seq<char>)
    requires
        forall|j: int| 0 <= j < s.len() && #[trigger] s[j].synth_index == Some(slot) ==> s[j].id == id,
    ensures
        others(without_slot(s, slot), id) == others(s, id),
    decreases s.len(),
{
    if s.len() > 0 {
        let d = s.drop_last();
        let x = s.last();
        assert(s =~= d.push(x));
        assert forall|j: int| 0 <= j < d.len() && #[trigger] d[j].synth_index == Some(slot) implies d[j].id == id by {
            assert(d[j] == s[j]);
        }
        lemma_others_without_slot(d, slot, id);
        lemma_without_slot_push(d, x, slot);
        lemma_others_push(d, x, id);
        if x.synth_index != Some(slot) {
            lemma_others_push(without_slot(d, slot), x, id);
        }
    } else {
        reveal_with_fuel(Seq::filter, 1);
        assert(without_slot(s, slot) =~= s);
    }
}

proof fn lemma_id_position_absent(s: Seq<InstrumentView>, id: Seq<char>, k: int)
    requires
        0 <= k,
        id_position_from(s, id, k) >= s.len(),
    ensures
        forall|j: int| k <= j < s.len() ==> s[j].id != id,
    decreases s.len() - k,
{
    if k < s.len() {
        lemma_id_position_absent(s, id, k + 1);
    }
}

/// Changing a step of instrument `id`, when no two instruments share an identifier and
/// `id` is the only one in slot `slot`: the instrument is in the pattern afterwards exactly
/// when one of its steps is not empty (one left all empty is taken away, or not added),
/// and the other instruments stay as they were, in their order. A press of note 0, which
/// presses nothing, is left out.
pub proof fn lemma_set_step_events_presence_and_order(
    instruments: Seq<InstrumentView>,
    slot: u8,
    id: Seq<char>,
    step: int,
    set_press_note: Option<Option<u8>>,
    set_release: Option<bool>,
    set_params: Option<(Option<i8>, Option<i8>)>,
)
    requires
        0 <= step < NUM_STEPS,
        forall|k: int| 0 <= k < instruments.len() ==> (#[trigger] instruments[k]).steps.len() == NUM_STEPS,
        distinct_ids(instruments),
        forall|k: int|
            0 <= k < instruments.len() ==> ((#[trigger] instruments[k]).synth_index == Some(slot) <==> instruments[k].id == id),
        set_press_note != Some(Some(0u8)),
    ensures
        ({
            let r = spec_set_step_events(instruments, slot, id, step, set_press_note, set_release, set_params);
            &&& has_id(r, id) <==> !all_empty(
                changed_steps(instruments, slot, id, step, set_press_note, set_release, set_params),
            )
            &&& others(r, id) == others(instruments, id)
        }),
{
    lemma_with_instrument_position(instruments, id, Some(slot));
    lemma_id_position_from_bounds(instruments, id, 0);
    let s1 = with_instrument(instruments, id, Some(slot));
    let k = id_position(s1, id);
    let steps = changed_steps(instruments, slot, id, step, set_press_note, set_release, set_params);
    let x = InstrumentView { steps, ..s1[k] };
    let s2 = s1.update(k, x);
    let r = spec_set_step_events(instruments, slot, id, step, set_press_note, set_release, set_params);
    let present = id_position(instruments, id) < instruments.len();
    if !present {
        lemma_id_position_absent(instruments, id, 0);
        lemma_others_push(instruments, s1[k], id);
    }
    // The changed instrument is the only one with its identifier, and is in slot `slot`.
    assert(s1[k].synth_index == Some(slot)) by {
        if present {
            assert(instruments[k].id == id);
        }
    }
    assert(forall|j: int| 0 <= j < s2.len() && j != k ==> s2[j] == instruments[j] && s2[j].id != id) by {
        assert forall|j: int| 0 <= j < s2.len() && j != k implies s2[j] == instruments[j] && s2[j].id != id by {
            assert(s2[j] == s1[j]);
            if present {
                if j < k {
                    assert(instruments[j].id != instruments[k].id);
                } else {
                    assert(instruments[k].id != instruments[j].id);
                }
            }
        }
    }
    lemma_others_update(s1, k, x, id);
    assert(others(s1, id) == others(instruments, id)) by {
        if present {
            assert(s1 == instruments);
        }
    }
    assert(s1[k].steps.len() == NUM_STEPS) by {
        if present {
            assert(instruments[k].steps.len() == NUM_STEPS);
        }
    }
    // Something added makes the changed step not empty.
    if adds_something(set_press_note, set_release, set_params) {
        assert(!steps[step].spec_is_empty());
        assert(!all_empty(steps));
    }
    if !adds_something(set_press_note, set_release, set_params) && all_empty(steps) {
        assert(r == without_slot(s2, slot));
        assert forall|j: int| 0 <= j < s2.len() && #[trigger] s2[j].synth_index == Some(slot) implies s2[j].id == id by {
            if j != k {
                assert(instruments[j].synth_index == Some(slot));
            }
        }
        lemma_others_without_slot(s2, slot, id);
        assert(!has_id(r, id)) by {
            if has_id(r, id) {
                let j = choose|j: int| 0 <= j < r.len() && #[trigger] r[j].id == id;
                s2.lemma_filter_pred(|i: InstrumentView| i.synth_index != Some(slot), j);
                assert(r.contains(r[j]));
                s2.lemma_filter_contains_rev(|i: InstrumentView| i.synth_index != Some(slot), r[j]);
                let m = choose|m: int| 0 <= m < s2.len() && s2[m] == r[j];
                assert(m == k);
            }
        }
    } else {
        assert(r == s2);
        assert(s2[k].id == id);
    }
}

/// A step after applying the requested changes: the release flag, then the pressed note
/// (`None` removes the press), then both parameters.
pub open spec fn applied_step(
    step: InstrumentStep,
    set_press_note: Option<Option<u8>>,
    set_release: Option<bool>,
    set_params: Option<(Option<i8>, Option<i8>)>,
) -> InstrumentStep {
    let s1 = match set_release {
        Some(r) => InstrumentStep { release: r, ..step },
        None => step,
    };
    let s2 = match set_press_note {
        Some(n) => InstrumentStep {
            note: match n {
                Some(v) => v,
                None => 0,
            },
            ..s1
        },
        None => s1,
    };
    match set_params {
        Some((p0, p1)) => InstrumentStep { param0: p0, param1: p1, ..s2 },
        None => s2,
    }
}

/// Whether the requested changes add a release, a press or a parameter.
pub open spec fn adds_something(
    set_press_note: Option<Option<u8>>,
    set_release: Option<bool>,
    set_params: Option<(Option<i8>, Option<i8>)>,
) -> bool {
    ||| set_release == Some(true)
    ||| set_press_note matches Some(Some(_))
    ||| set_params matches Some((p0, p1)) && (p0 is Some || p1 is Some)
}

pub open spec fn all_empty(steps: Seq<InstrumentStep>) -> bool {
    forall|i: int| 0 <= i < steps.len() ==> #[trigger] steps[i].spec_is_empty()
}

/// The instruments of a pattern after changing a step of instrument `id` (added in slot
/// `slot` if missing). When the change adds nothing and leaves all its steps empty, the
/// instruments in that slot are removed.
pub open spec fn spec_set_step_events(
    instruments: Seq<InstrumentView>,
    slot: u8,
    id: Seq<char>,
    step: int,
    set_press_note: Option<Option<u8>>,
    set_release: Option<bool>,
    set_params: Option<(Option<i8>, Option<i8>)>,
) -> Seq<InstrumentView> {
    let s1 = with_instrument(instruments, id, Some(slot));
    let k = id_position(s1, id);
    let steps = s1[k].steps.update(
        step,
        applied_step(s1[k].steps[step], set_press_note, set_release, set_params),
    );
    let s2 = s1.update(k, InstrumentView { steps, ..s1[k] });
    if !adds_something(set_press_note, set_release, set_params) && all_empty(steps) {
        without_slot(s2, slot)
    } else {
        s2
    }
}

/// The step before the change made by `spec_set_step_events`.
pub open spec fn step_before_set(instruments: Seq<InstrumentView>, slot: u8, id: Seq<char>, step: int) -> InstrumentStep {
    let s1 = with_instrument(instruments, id, Some(slot));
    s1[id_position(s1, id)].steps[step]
}

/// The text of each string.
pub open spec fn string_views(v: Seq<String>) -> Seq<Seq<char>> {
    Seq::new(v.len(), |i: int| v[i]@)
}

/// The slot at which `ids` holds `id` first, truncated to a byte, or `None`.
pub open spec fn slot_for_id(ids: Seq<Seq<char>>, id: Seq<char>) -> Option<u8> {
    if exists|p: int| 0 <= p < ids.len() && ids[p] == id {
        Some((choose|p: int| 0 <= p < ids.len() && ids[p] == id && forall|q: int| 0 <= q < p ==> ids[q] != id) as u8)
    } else {
        None
    }
}

/// The first position of `id` in `ids`.
fn position_of_string(ids: &Vec<String>, id: &String) -> (r: Option<usize>)
    ensures
        match r {
            Some(p) => p < ids@.len() && ids@[p as int]@ == id@ && forall|q: int| 0 <= q < p ==> ids@[q]@ != id@,
            None => forall|q: int| 0 <= q < ids@.len() ==> ids@[q]@ != id@,
        },
{
    let mut i: usize = 0;
    while i < ids.len()
        invariant
            i <= ids@.len(),
            forall|q: int| 0 <= q < i ==> ids@[q]@ != id@,
        decreases ids@.len() - i,
    {
        if ids[i] == *id {
            return Some(i);
        }
        i = i + 1;
    }
    None
}

impl Instrument {
    /// An instrument with empty steps.
    pub fn new(id: String, synth_index: Option<u8>) -> (r: Instrument)
        ensures
            r@ == (InstrumentView { id: id@, synth_index, steps: empty_steps() }),
    {
        let r = Instrument { id, synth_index, steps: [InstrumentStep::empty(); NUM_STEPS] };
        assert(r.steps@ =~= empty_steps());
        r
    }

    /// A copy of the instrument.
    pub fn duplicate(&self) -> (r: Instrument)
        ensures
            r@ == self@,
    {
        Instrument { id: self.id.clone(), synth_index: self.synth_index, steps: self.steps }
    }
}

impl Pattern {
    /// An empty pattern.
    pub fn new() -> (p: Pattern)
        ensures
            p.instruments@.len() == 0,
    {
        Pattern { instruments: Vec::new() }
    }

    /// Whether the pattern sequences no instrument.
    pub fn is_empty(&self) -> (r: bool)
        ensures
            r == (self@.len() == 0),
    {
        self.instruments.len() == 0
    }

    /// The sort key of an instrument slot (see `spec_order`).
    pub fn order(a: u8) -> (r: u32)
        ensures
            r == spec_order(a),
    {
        let mut ai = a as u32;
        ai = ai | ((ai & 0x3) << 8);
        assert((a as u32) | (((a as u32) & 0x3) << 8) == (a as u32) + ((a as u32) % 4) * 256)
            by (bit_vector);
        ai
    }

    /// Finds the instrument nearest to `instrument` in slot order, in the given direction,
    /// returning its position in the pattern and its slot.
    pub fn find_nearest_instrument_pos(&self, instrument: u8, forward: bool) -> (r: Option<(usize, u8)>)
        ensures
            is_nearest(self@, instrument, forward, r),
    {
        let ghost s = self@;
        let mut best: Option<(usize, u8)> = None;
        let target = Self::order(instrument);
        let mut ii: usize = 0;
        while ii < self.instruments.len()
            invariant
                s == self@,
                target == spec_order(instrument),
                ii <= s.len(),
                forall|j: int| 0 <= j < ii ==> !has_slot(s, j, instrument),
                match best {
                    None => forall|j: int| 0 <= j < ii ==> slot_of(s, j) is None,
                    Some((k, v)) => {
                        &&& 0 <= k < ii
                        &&& has_slot(s, k as int, v)
                        &&& forall|j: int|
                            0 <= j < k && #[trigger] slot_of(s, j) is Some ==> nearer(
                                forward,
                                v,
                                slot_of(s, j)->0,
                                instrument,
                            )
                        &&& forall|j: int|
                            k < j < ii && #[trigger] slot_of(s, j) is Some ==> !nearer(
                                forward,
                                slot_of(s, j)->0,
                                v,
                                instrument,
                            )
                    },
                },
            decreases s.len() - ii,
        {
            match self.instruments[ii].synth_index {
                Some(this_instrument) => {
                    if this_instrument == instrument {
                        assert(has_slot(s, ii as int, instrument));
                        return Some((ii, this_instrument));
                    }
                    match best {
                        Some((_, best_instrument)) => {
                            let t = Self::order(this_instrument).wrapping_sub(target);
                            let b = Self::order(best_instrument).wrapping_sub(target);
                            assert(t == wrapped_distance(this_instrument, instrument));
                            assert(b == wrapped_distance(best_instrument, instrument));
                            let closer = if forward { t < b } else { t > b };
                            if closer {
                                best = Some((ii, this_instrument));
                            }
                        },
                        None => {
                            best = Some((ii, this_instrument));
                        },
                    }
                },
                None => {},
            }
            ii = ii + 1;
        }
        best
    }
}

impl Pattern {
    /// The slot to select after `current` when cycling through the pattern's instruments:
    /// if `current` is in the pattern, the next (or previous) instrument with a slot,
    /// cycling around; otherwise the nearest one in that direction.
    pub fn next_instrument(&self, current_instrument: u8, forward: bool) -> (r: Option<u8>)
        ensures
            exists|n: Option<(usize, u8)>| {
                &&& is_nearest(self@, current_instrument, forward, n)
                &&& r == spec_next_instrument(self@, current_instrument, forward, n)
            },
            r matches Some(v) ==> exists|j: int| 0 <= j < self@.len() && #[trigger] has_slot(self@, j, v),
    {
        let nearest = self.find_nearest_instrument_pos(current_instrument, forward);
        let r = match nearest {
            Some((ii, i)) => {
                if i == current_instrument {
                    self.cycle_from(ii, forward)
                } else {
                    Some(i)
                }
            },
            None => None,
        };
        assert(r == spec_next_instrument(self@, current_instrument, forward, nearest));
        proof {
            if let Some((ii, i)) = nearest {
                if i == current_instrument {
                    lemma_first_slot_cycling_is_slot(self@, ii as int, forward, 1);
                    assert(r == first_slot_cycling(self@, ii as int, forward, 1));
                    assert(r matches Some(v) ==> exists|j: int| 0 <= j < self@.len() && #[trigger] has_slot(self@, j, v));
                } else {
                    assert(r == Some(i));
                    assert(0 <= ii < self@.len());
                    assert(has_slot(self@, ii as int, i));
                    assert(exists|j: int| 0 <= j < self@.len() && #[trigger] has_slot(self@, j, i));
                }
            }
            if let Some(v) = r {
                assert(exists|j: int| 0 <= j < self@.len() && #[trigger] has_slot(self@, j, v));
            }
        }
        r
    }

    /// The slot of the first instrument with a slot met when cycling from position `start`.
    fn cycle_from(&self, start: usize, forward: bool) -> (r: Option<u8>)
        requires
            start < self@.len(),
        ensures
            r == first_slot_cycling(self@, start as int, forward, 1),
    {
        let ghost s = self@;
        let len = self.instruments.len();
        let mut k: usize = 1;
        while k < len
            invariant
                s == self@,
                len == s.len(),
                start < len,
                1 <= k,
                first_slot_cycling(s, start as int, forward, 1) == first_slot_cycling(
                    s,
                    start as int,
                    forward,
                    k as int,
                ),
            decreases len - k,
        {
            let pos = if forward {
                if k < len - start {
                    start + k
                } else {
                    k - (len - start)
                }
            } else {
                if k <= start {
                    start - k
                } else {
                    start + (len - k)
                }
            };
            assert(pos == cycle_pos(start as int, k as int, len as int, forward)) by {
                let a = if forward { start + k } else { start + len - k };
                assert(0 <= a < 2 * len);
                if a >= len {
                    vstd::arithmetic::div_mod::lemma_mod_add_multiples_vanish((a - len) as int, len as int);
                    vstd::arithmetic::div_mod::lemma_small_mod((a - len) as nat, len as nat);
                } else {
                    vstd::arithmetic::div_mod::lemma_small_mod(a as nat, len as nat);
                }
            }
            match self.instruments[pos].synth_index {
                Some(v) => {
                    return Some(v);
                },
                None => {},
            }
            k = k + 1;
        }
        None
    }

    /// The position of the first instrument in slot `instrument`, if any.
    pub fn position_of(&self, instrument: u8) -> (r: Option<usize>)
        ensures
            match r {
                Some(k) => is_first_with_slot(self@, instrument, k as int),
                None => forall|j: int|
                    0 <= j < self@.len() ==> !has_slot(self@, j, instrument),
            },
    {
        let mut ii: usize = 0;
        while ii < self.instruments.len()
            invariant
                ii <= self@.len(),
                forall|j: int| 0 <= j < ii ==> !has_slot(self@, j, instrument),
            decreases self@.len() - ii,
        {
            if self.instruments[ii].synth_index == Some(instrument) {
                return Some(ii);
            }
            ii = ii + 1;
        }
        None
    }

    /// The steps of the first instrument in slot `instrument`, if any.
    pub fn get_steps(&self, instrument: u8) -> (r: Option<&[InstrumentStep; NUM_STEPS]>)
        ensures
            r matches Some(steps) ==> steps_in_slot(self@, instrument) == Some(steps@),
            r is None ==> steps_in_slot(self@, instrument) is None,
            match r {
                Some(steps) => exists|k: int|
                    is_first_with_slot(self@, instrument, k) && steps@
                        == self@[k].steps,
                None => forall|j: int|
                    0 <= j < self@.len() ==> !has_slot(self@, j, instrument),
            },
    {
        match self.position_of(instrument) {
            Some(k) => {
                assert(self@[k as int] == self.instruments@[k as int]@);
                Some(&self.instruments[k].steps)
            },
            None => None,
        }
    }

    /// The instruments of the pattern.
    pub fn instruments(&self) -> (r: &Vec<Instrument>)
        ensures
            r@ == self.instruments@,
    {
        &self.instruments
    }
}

impl Pattern {
    /// The position of the first instrument with identifier `id`, if any.
    pub fn position_of_id(&self, id: &String) -> (r: Option<usize>)
        ensures
            match r {
                Some(k) => k == id_position(self@, id@) && k < self@.len(),
                None => id_position(self@, id@) == self@.len(),
            },
    {
        let mut i: usize = 0;
        while i < self.instruments.len()
            invariant
                i <= self@.len(),
                i <= self.instruments@.len(),
                id_position(self@, id@) == id_position_from(self@, id@, i as int),
            decreases self@.len() - i,
        {
            assert(self@[i as int] == self.instruments@[i as int]@);
            if self.instruments[i].id == *id {
                return Some(i);
            }
            i = i + 1;
        }
        None
    }

    /// The position of the first instrument with identifier `id`, after adding one with
    /// empty steps in slot `synth_index` when there is none.
    pub fn position_of_id_or_insert(&mut self, instrument_id: &String, synth_index: Option<u8>) -> (r: usize)
        ensures
            final(self)@ == with_instrument(old(self)@, instrument_id@, synth_index),
            r == id_position(final(self)@, instrument_id@),
            r < final(self)@.len(),
    {
        match self.position_of_id(instrument_id) {
            Some(ii) => ii,
            None => {
                let ghost before = self@;
                let ins = Instrument::new(instrument_id.clone(), synth_index);
                self.instruments.push(ins);
                assert(self@ =~= with_instrument(before, instrument_id@, synth_index));
                proof {
                    lemma_id_position_push(before, instrument_id@, ins@);
                }
                self.instruments.len() - 1
            },
        }
    }

    /// The steps of the first instrument with identifier `instrument_id`, after adding one
    /// with empty steps in slot `synth_index` when there is none.
    pub fn get_steps_mut_or_insert(&mut self, instrument_id: &String, synth_index: Option<u8>) -> (r: &mut [InstrumentStep; NUM_STEPS])
        ensures
            ({
                let s1 = with_instrument(old(self)@, instrument_id@, synth_index);
                let k = id_position(s1, instrument_id@);
                &&& 0 <= k < s1.len()
                &&& r@ == s1[k].steps
                &&& final(self)@ == s1.update(k, InstrumentView { steps: final(r)@, ..s1[k] })
            }),
    {
        let ii = self.position_of_id_or_insert(instrument_id, synth_index);
        let ghost mid = self.instruments@;
        let r = &mut self.instruments[ii].steps;
        r
    }

    /// The steps of the first instrument in slot `instrument`, if any, for changing them.
    pub fn get_steps_mut(&mut self, instrument: u8) -> (r: Option<&mut [InstrumentStep; NUM_STEPS]>)
        ensures
            match r {
                Some(steps) => exists|k: int| {
                    &&& is_first_with_slot(old(self)@, instrument, k)
                    &&& steps_in_slot(old(self)@, instrument) == Some(old(self)@[k].steps)
                    &&& steps@ == old(self)@[k].steps
                    &&& final(self)@ == old(self)@.update(
                        k,
                        InstrumentView { steps: final(steps)@, ..old(self)@[k] },
                    )
                },
                None => {
                    &&& forall|j: int|
                        0 <= j < old(self)@.len() ==> !has_slot(old(self)@, j, instrument)
                    &&& steps_in_slot(old(self)@, instrument) is None
                    &&& final(self)@ == old(self)@
                },
            },
    {
        match self.position_of(instrument) {
            Some(k) => {
                let ghost before = self@;
                let r = &mut self.instruments[k].steps;
                assert(is_first_with_slot(before, instrument, k as int));
                Some(r)
            },
            None => None,
        }
    }

    /// Changes a step of instrument `instrument_id`, adding it in slot `instrument` if
    /// missing, and returns the step as it was before. When the change adds nothing and
    /// leaves the instrument's steps all empty, the instruments in that slot are removed.
    pub fn set_step_events(
        &mut self,
        instrument: u8,
        instrument_id: &String,
        step: usize,
        set_press_note: Option<Option<u8>>,
        set_release: Option<bool>,
        set_params: Option<(Option<i8>, Option<i8>)>,
    ) -> (previous: InstrumentStep)
        requires
            step < NUM_STEPS,
            set_press_note != Some(Some(0u8)),
        ensures
            final(self)@ == spec_set_step_events(
                old(self)@,
                instrument,
                instrument_id@,
                step as int,
                set_press_note,
                set_release,
                set_params,
            ),
            previous == step_before_set(old(self)@, instrument, instrument_id@, step as int),
    {
        let ii = self.position_of_id_or_insert(instrument_id, Some(instrument));
        let ghost s1 = self@;
        let previous = self.instruments[ii].steps[step];
        let mut st = previous;
        let mut something_added = false;
        if let Some(release) = set_release {
            something_added = something_added || release;
            st.release = release;
        }
        if let Some(note) = set_press_note {
            something_added = something_added || note.is_some();
            st.set_press_note(note);
        }
        if let Some((param0, param1)) = set_params {
            something_added = something_added || param0.is_some() || param1.is_some();
            st.param0 = param0;
            st.param1 = param1;
        }
        assert(st == applied_step(previous, set_press_note, set_release, set_params));
        self.instruments[ii].steps[step] = st;
        let ghost s2 = self@;
        assert(s2 =~= s1.update(
            ii as int,
            InstrumentView { steps: s1[ii as int].steps.update(step as int, st), ..s1[ii as int] },
        ));
        let mut every_empty = true;
        let mut i: usize = 0;
        while i < NUM_STEPS
            invariant
                ii < self.instruments@.len(),
                self@ == s2,
                i <= NUM_STEPS,
                every_empty == forall|j: int| 0 <= j < i ==> #[trigger] s2[ii as int].steps[j].spec_is_empty(),
            decreases NUM_STEPS - i,
        {
            assert(s2[ii as int].steps[i as int] == self.instruments@[ii as int].steps@[i as int]);
            if !self.instruments[ii].steps[i].is_empty() {
                every_empty = false;
            }
            i = i + 1;
        }
        proof {
            let steps = s1[ii as int].steps.update(step as int, st);
            assert(s2[ii as int].steps == steps);
            assert(steps.len() == NUM_STEPS);
            assert(every_empty == all_empty(steps));
            assert(something_added == adds_something(set_press_note, set_release, set_params));
        }
        if !something_added && every_empty {
            self.remove_instrument(instrument);
        }
        previous
    }

    /// Gives each instrument the slot at which the loaded instruments declare its
    /// identifier, or no slot when they do not.
    pub fn update_synth_index(&mut self, new_instrument_ids: &Vec<String>)
        ensures
            final(self)@.len() == old(self)@.len(),
            forall|k: int|
                0 <= k < old(self)@.len() ==> #[trigger] final(self)@[k] == (InstrumentView {
                    synth_index: slot_for_id(string_views(new_instrument_ids@), old(self)@[k].id),
                    ..old(self)@[k]
                }),
    {
        let ghost old_s = self@;
        let mut i: usize = 0;
        while i < self.instruments.len()
            invariant
                self@.len() == old_s.len(),
                i <= old_s.len(),
                forall|k: int|
                    0 <= k < i ==> #[trigger] self@[k] == (InstrumentView {
                        synth_index: slot_for_id(string_views(new_instrument_ids@), old_s[k].id),
                        ..old_s[k]
                    }),
                forall|k: int| i <= k < old_s.len() ==> #[trigger] self@[k] == old_s[k],
            decreases old_s.len() - i,
        {
            let ghost before = self@;
            assert(before[i as int] == self.instruments@[i as int]@);
            let index = position_of_string(new_instrument_ids, &self.instruments[i].id);
            let ghost slot = slot_for_id(string_views(new_instrument_ids@), before[i as int].id);
            proof {
                let sv = string_views(new_instrument_ids@);
                let id = before[i as int].id;
                assert forall|q: int| 0 <= q < sv.len() implies sv[q] == new_instrument_ids@[q]@ by {}
                match index {
                    Some(p) => {
                        assert(sv[p as int] == id);
                        let c = choose|c: int| 0 <= c < sv.len() && sv[c] == id && forall|q: int| 0 <= q < c ==> sv[q] != id;
                        assert(0 <= c < sv.len() && sv[c] == id && forall|q: int| 0 <= q < c ==> sv[q] != id);
                        assert(c == p);
                        assert(slot == Some(p as u8));
                    },
                    None => {
                        assert(slot is None);
                    },
                }
            }
            self.instruments[i].synth_index = match index {
                Some(p) => Some(p as u8),
                None => None,
            };
            assert forall|k: int| 0 <= k < old_s.len() && k != i implies #[trigger] self@[k] == before[k] by {
                assert(self@[k] == self.instruments@[k]@);
            }
            assert(self@[i as int] == InstrumentView { synth_index: slot, ..old_s[i as int] });
            i = i + 1;
        }
    }

    /// Removes the instruments in slot `instrument`.
    pub fn remove_instrument(&mut self, instrument: u8)
        ensures
            final(self)@ == without_slot(old(self)@, instrument),
    {
        let ghost old_s = self@;
        let mut i: usize = 0;
        let ghost mut j: int = 0;
        while i < self.instruments.len()
            invariant
                0 <= j <= old_s.len(),
                i <= self@.len(),
                self@ == without_slot(old_s.take(j), instrument) + old_s.skip(j),
                i == without_slot(old_s.take(j), instrument).len(),
            decreases old_s.len() - j,
        {
            let ghost before = self@;
            assert(old_s.take(j + 1) =~= old_s.take(j).push(old_s[j]));
            assert(before[i as int] == old_s[j]);
            proof {
                lemma_without_slot_push(old_s.take(j), old_s[j], instrument);
            }
            if self.instruments[i].synth_index == Some(instrument) {
                self.instruments.remove(i);
                assert(self@ =~= before.remove(i as int));
                assert(self@ =~= without_slot(old_s.take(j + 1), instrument) + old_s.skip(j + 1));
            } else {
                assert(without_slot(old_s.take(j + 1), instrument) =~= without_slot(old_s.take(j), instrument).push(old_s[j]));
                assert(self@ =~= without_slot(old_s.take(j + 1), instrument) + old_s.skip(j + 1));
                i = i + 1;
            }
            proof {
                j = j + 1;
            }
        }
        assert(old_s.take(j) =~= old_s) by {
            assert(j == old_s.len()) by {
                if j < old_s.len() {
                    assert(self@.len() > i);
                }
            }
        }
        assert(self@ =~= without_slot(old_s, instrument));
    }

    /// A copy of the pattern.
    pub fn duplicate(&self) -> (r: Pattern)
        ensures
            r@ == self@,
    {
        let mut v: Vec<Instrument> = Vec::new();
        let mut i: usize = 0;
        while i < self.instruments.len()
            invariant
                i <= self@.len(),
                i <= self.instruments@.len(),
                v@.len() == i,
                instrument_views(v@) == self@.take(i as int),
            decreases self@.len() - i,
        {
            let c = self.instruments[i].duplicate();
            let ghost old_v = v@;
            v.push(c);
            assert forall|k: int| 0 <= k < i + 1 implies instrument_views(v@)[k] == self@.take(i + 1)[k] by {
                if k < i {
                    assert(instrument_views(old_v)[k] == self@.take(i as int)[k]);
                    assert(v@[k] == old_v[k]);
                } else {
                    assert(v@[k] == c);
                    assert(self@[k] == self.instruments@[k]@);
                }
            }
            assert(instrument_views(v@) =~= self@.take(i + 1));
            i = i + 1;
        }
        let r = Pattern { instruments: v };
        assert(r@ =~= self@);
        r
    }
}

} // verus!
