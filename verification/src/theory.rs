//! Musical scales: interval patterns, pitch classes, and full-range note
//! tables.

use vstd::prelude::*;

verus! {

/// A scale, named by its interval pattern. The seven diatonic modes are
/// rotations of the Ionian step pattern; harmonic minor, harmonic major and
/// melodic minor are hand-specified; the remaining named scales are
/// rotations of the harmonic-minor parent.
#[derive(Debug, Clone, Copy, Hash, Eq, PartialEq, Structural)]
pub enum Scale {
    Ionian,
    Dorian,
    Phrygian,
    Lydian,
    Mixolydian,
    Aeolian,
    Locrian,
    HarmonicMinor,
    LocrianNatural6,
    IonianSharp5,
    DorianSharp4,
    PhrygianDominant,
    LydianSharp9,
    AlteredDiminished,
    HarmonicMajor,
    MelodicMinor,
}

/// The seven semitone steps of a scale, in order from its root degree.
pub open spec fn spec_intervals(s: Scale) -> Seq<u8> {
    match s {
        Scale::Ionian => seq![2u8, 2, 1, 2, 2, 2, 1],
        Scale::Dorian => seq![2u8, 1, 2, 2, 2, 1, 2],
        Scale::Phrygian => seq![1u8, 2, 2, 2, 1, 2, 2],
        Scale::Lydian => seq![2u8, 2, 2, 1, 2, 2, 1],
        Scale::Mixolydian => seq![2u8, 2, 1, 2, 2, 1, 2],
        Scale::Aeolian => seq![2u8, 1, 2, 2, 1, 2, 2],
        Scale::Locrian => seq![1u8, 2, 2, 1, 2, 2, 2],
        Scale::HarmonicMinor => seq![2u8, 1, 2, 2, 1, 3, 1],
        Scale::LocrianNatural6 => seq![1u8, 2, 2, 1, 3, 1, 2],
        Scale::IonianSharp5 => seq![2u8, 2, 1, 3, 1, 2, 1],
        Scale::DorianSharp4 => seq![2u8, 1, 3, 1, 2, 1, 2],
        Scale::PhrygianDominant => seq![1u8, 3, 1, 2, 1, 2, 2],
        Scale::LydianSharp9 => seq![3u8, 1, 2, 1, 2, 2, 1],
        Scale::AlteredDiminished => seq![1u8, 2, 1, 2, 2, 1, 3],
        Scale::HarmonicMajor => seq![2u8, 2, 1, 2, 1, 3, 1],
        Scale::MelodicMinor => seq![2u8, 1, 2, 2, 2, 2, 1],
    }
}

/// The sum of a sequence of semitone steps.
pub open spec fn steps_sum(s: Seq<u8>) -> int
    decreases s.len(),
{
    if s.len() == 0 {
        0
    } else {
        steps_sum(s.drop_last()) + s.last()
    }
}

/// Every scale's interval pattern has exactly seven positive steps, none
/// wider than a minor third, that cover one octave: they sum to twelve
/// semitones.
pub proof fn lemma_intervals_wf(s: Scale)
    ensures
        spec_intervals(s).len() == 7,
        forall|i: int| 0 <= i < 7 ==> 1 <= #[trigger] spec_intervals(s)[i] <= 3,
        steps_sum(spec_intervals(s)) == 12,
{
    reveal_with_fuel(steps_sum, 8);
}

impl Scale {
    /// The common name of the Ionian mode.
    #[allow(non_upper_case_globals)]
    pub const Major: Scale = Scale::Ionian;

    /// The common name of the Aeolian mode.
    #[allow(non_upper_case_globals)]
    pub const Minor: Scale = Scale::Aeolian;

    /// The seven semitone steps of this scale, from the root degree upward.
    /// They are exactly `spec_intervals`: seven positive steps summing to
    /// an octave.
    pub fn get_intervals(&self) -> (r: Vec<u8>)
        ensures
            r@ == spec_intervals(*self),
            r@.len() == 7,
            forall|i: int| 0 <= i < 7 ==> 1 <= #[trigger] r@[i],
            steps_sum(r@) == 12,
    {
        proof {
            lemma_intervals_wf(*self);
        }
        match self {
            Scale::Ionian => base_ionian(),
            Scale::Dorian => rotated_ionian(1),
            Scale::Phrygian => rotated_ionian(2),
            Scale::Lydian => rotated_ionian(3),
            Scale::Mixolydian => rotated_ionian(4),
            Scale::Aeolian => rotated_ionian(5),
            Scale::Locrian => rotated_ionian(6),
            Scale::HarmonicMinor => base_harmonic_minor(),
            Scale::LocrianNatural6 => rotated_harmonic_minor(1),
            Scale::IonianSharp5 => rotated_harmonic_minor(2),
            Scale::DorianSharp4 => rotated_harmonic_minor(3),
            Scale::PhrygianDominant => rotated_harmonic_minor(4),
            Scale::LydianSharp9 => rotated_harmonic_minor(5),
            Scale::AlteredDiminished => rotated_harmonic_minor(6),
            Scale::HarmonicMajor => base_harmonic_major(),
            Scale::MelodicMinor => base_melodic_minor(),
        }
    }

    /// Left-rotate an interval pattern to obtain the pattern of one of its
    /// modes: element `i` of the result is element `(i + offset) mod len`
    /// of the parent pattern.
    pub fn get_mode_intervals(intervals: &Vec<u8>, offset: usize) -> (r: Vec<u8>)
        requires
            intervals@.len() >= 1,
        ensures
            r@.len() == intervals@.len(),
            forall|i: int|
                0 <= i < r@.len() ==> r@[i] == intervals@[(i + offset as int) % (
                intervals@.len() as int)],
    {
        let len = intervals.len();
        let k = offset % len;
        let mut r: Vec<u8> = Vec::new();
        let mut i: usize = 0;
        while i < len
            invariant
                1 <= len == intervals@.len(),
                k == offset % len,
                i <= len,
                r@.len() == i as int,
                forall|j: int|
                    0 <= j < i ==> r@[j] == intervals@[(j + offset as int) % (len as int)],
            decreases len - i,
        {
            let idx = if k >= len - i {
                k - (len - i)
            } else {
                i + k
            };
            proof {
                lemma_rotation_index(i as int, offset as int, len as int);
            }
            r.push(intervals[idx]);
            i += 1;
        }
        r
    }
}

/// Rotating by `offset` lands index `i` on `(i + offset) mod len`, which the
/// rotation loop computes without overflow from `offset mod len`.
proof fn lemma_rotation_index(i: int, offset: int, len: int)
    requires
        0 <= i < len,
        0 <= offset,
    ensures
        (i + offset) % len == if i + offset % len >= len {
            i + offset % len - len
        } else {
            i + offset % len
        },
{
    let k = offset % len;
    vstd::arithmetic::div_mod::lemma_add_mod_noop_right(i, offset, len);
    assert((i + k) % len == if i + k >= len {
        i + k - len
    } else {
        i + k
    }) by {
        if i + k >= len {
            vstd::arithmetic::div_mod::lemma_mod_sub_multiples_vanish(i + k, len);
            vstd::arithmetic::div_mod::lemma_small_mod((i + k - len) as nat, len as nat);
        } else {
            vstd::arithmetic::div_mod::lemma_small_mod((i + k) as nat, len as nat);
        }
    }
}

/// The Ionian (major) step pattern.
fn base_ionian() -> (r: Vec<u8>)
    ensures
        r@ == seq![2u8, 2, 1, 2, 2, 2, 1],
{
    steps7(2, 2, 1, 2, 2, 2, 1)
}

/// The harmonic-minor step pattern.
fn base_harmonic_minor() -> (r: Vec<u8>)
    ensures
        r@ == seq![2u8, 1, 2, 2, 1, 3, 1],
{
    steps7(2, 1, 2, 2, 1, 3, 1)
}

/// The harmonic-major step pattern.
fn base_harmonic_major() -> (r: Vec<u8>)
    ensures
        r@ == seq![2u8, 2, 1, 2, 1, 3, 1],
{
    steps7(2, 2, 1, 2, 1, 3, 1)
}

/// The melodic-minor step pattern.
fn base_melodic_minor() -> (r: Vec<u8>)
    ensures
        r@ == seq![2u8, 1, 2, 2, 2, 2, 1],
{
    steps7(2, 1, 2, 2, 2, 2, 1)
}

/// The mode of the Ionian parent at the given rotation.
fn rotated_ionian(offset: usize) -> (r: Vec<u8>)
    requires
        offset < 7,
    ensures
        r@.len() == 7,
        forall|i: int| 0 <= i < 7 ==> r@[i] == spec_intervals(Scale::Ionian)[(i + offset as int)
            % 7],
{
    let base = base_ionian();
    Scale::get_mode_intervals(&base, offset)
}

/// The mode of the harmonic-minor parent at the given rotation.
fn rotated_harmonic_minor(offset: usize) -> (r: Vec<u8>)
    requires
        offset < 7,
    ensures
        r@.len() == 7,
        forall|i: int| 0 <= i < 7 ==> r@[i] == spec_intervals(Scale::HarmonicMinor)[(i
            + offset as int) % 7],
{
    let base = base_harmonic_minor();
    Scale::get_mode_intervals(&base, offset)
}

/// The sum of the first `k` steps of a pattern: the semitone distance from
/// the root degree to degree `k`.
pub open spec fn prefix_sum(steps: Seq<u8>, k: int) -> int
    decreases k,
{
    if k <= 0 {
        0
    } else {
        prefix_sum(steps, k - 1) + steps[k - 1]
    }
}

/// Whether pitch class `pc` belongs to scale `s` rooted at `root`: it is
/// reached from the root's pitch class by some prefix of the step pattern.
pub open spec fn spec_pitch_class_in(s: Scale, root: u8, pc: int) -> bool {
    exists|k: int|
        0 <= k < 7 && pc == (root as int % 12 + prefix_sum(spec_intervals(s), k)) % 12
}

/// The scale's notes below pitch `n`, in ascending order: every pitch in
/// `[0, n)` whose pitch class belongs to the scale.
pub open spec fn notes_below(s: Scale, root: u8, n: int) -> Seq<u8>
    decreases n,
{
    if n <= 0 {
        Seq::empty()
    } else {
        notes_below(s, root, n - 1) + if spec_pitch_class_in(s, root, (n - 1) % 12) {
            seq![(n - 1) as u8]
        } else {
            Seq::empty()
        }
    }
}

/// Every note of the scale over the whole MIDI pitch range `[0, 127]`,
/// ascending.
pub open spec fn spec_scale_notes(s: Scale, root: u8) -> Seq<u8> {
    notes_below(s, root, 128)
}

/// The note table below `n` is ascending, bounded by `n`, no longer than
/// `n`, and holds exactly the pitches whose pitch class is in the scale.
pub proof fn lemma_notes_below_wf(s: Scale, root: u8, n: int)
    requires
        0 <= n <= 128,
    ensures
        notes_below(s, root, n).len() <= n,
        forall|i: int|
            0 <= i < notes_below(s, root, n).len() ==> 0 <= #[trigger] notes_below(s, root, n)[i]
                < n,
        forall|i: int, j: int|
            0 <= i < j < notes_below(s, root, n).len() ==> notes_below(s, root, n)[i] < notes_below(
                s,
                root,
                n,
            )[j],
        forall|p: int|
            0 <= p < n ==> (#[trigger] notes_below(s, root, n).contains(p as u8)
                <==> spec_pitch_class_in(s, root, p % 12)),
    decreases n,
{
    if n > 0 {
        lemma_notes_below_wf(s, root, n - 1);
        let prev = notes_below(s, root, n - 1);
        let cur = notes_below(s, root, n);
        assert forall|p: int| 0 <= p < n implies (#[trigger] cur.contains(p as u8)
            <==> spec_pitch_class_in(s, root, p % 12)) by {
            if p < n - 1 {
                assert(prev.contains(p as u8) ==> cur.contains(p as u8)) by {
                    if prev.contains(p as u8) {
                        let i = choose|i: int| 0 <= i < prev.len() && prev[i] == p as u8;
                        assert(cur[i] == p as u8);
                    }
                }
                assert(cur.contains(p as u8) ==> prev.contains(p as u8)) by {
                    if cur.contains(p as u8) {
                        let i = choose|i: int| 0 <= i < cur.len() && cur[i] == p as u8;
                        assert(i < prev.len());
                    }
                }
            } else {
                if spec_pitch_class_in(s, root, p % 12) {
                    assert(cur[cur.len() - 1] == (n - 1) as u8);
                }
                if cur.contains(p as u8) {
                }
            }
        }
    }
}

/// A prefix sum ignores the dropped last step.
proof fn lemma_prefix_sum_prefix(steps: Seq<u8>, k: int)
    requires
        0 <= k < steps.len(),
    ensures
        prefix_sum(steps.drop_last(), k) == prefix_sum(steps, k),
    decreases k,
{
    if k > 0 {
        lemma_prefix_sum_prefix(steps, k - 1);
    }
}

/// The prefix sum over the whole pattern is the pattern's sum.
proof fn lemma_prefix_total(steps: Seq<u8>)
    ensures
        prefix_sum(steps, steps.len() as int) == steps_sum(steps),
    decreases steps.len(),
{
    if steps.len() > 0 {
        lemma_prefix_total(steps.drop_last());
        lemma_prefix_sum_prefix(steps, steps.len() - 1);
    }
}

/// With positive steps, prefix sums strictly increase.
proof fn lemma_prefix_monotone(steps: Seq<u8>, j: int, k: int)
    requires
        0 <= j < k <= steps.len(),
        forall|i: int| 0 <= i < steps.len() ==> 1 <= #[trigger] steps[i],
    ensures
        prefix_sum(steps, j) < prefix_sum(steps, k),
    decreases k,
{
    if k - 1 > j {
        lemma_prefix_monotone(steps, j, k - 1);
    }
}

/// Adding a common offset before reducing modulo an octave keeps distinct
/// residues distinct.
proof fn lemma_mod_add_inj(a: int, x: int, y: int)
    requires
        0 <= x < y < 12,
        0 <= a,
    ensures
        (a + x) % 12 != (a + y) % 12,
{
    vstd::arithmetic::div_mod::lemma_fundamental_div_mod(a + x, 12);
    vstd::arithmetic::div_mod::lemma_fundamental_div_mod(a + y, 12);
    if (a + x) % 12 == (a + y) % 12 {
        let dx = (a + x) / 12;
        let dy = (a + y) / 12;
        assert(y - x == 12 * (dy - dx));
        assert(false) by (nonlinear_arith)
            requires
                y - x == 12 * (dy - dx),
                0 < y - x < 12,
        ;
    }
}

/// A scale has exactly seven pitch classes: the seven prefix sums of its
/// step pattern land on seven distinct residues, so the tonic-note table
/// has exactly seven entries.
pub proof fn lemma_tonic_count(s: Scale, root: u8)
    ensures
        notes_below(s, root, 12).len() == 7,
{
    lemma_intervals_wf(s);
    lemma_notes_below_wf(s, root, 12);
    let steps = spec_intervals(s);
    let a = root as int % 12;
    let pcs = Seq::new(7, |k: int| ((a + prefix_sum(steps, k)) % 12) as u8);
    let tonic = notes_below(s, root, 12);

    // Prefix sums are distinct values in [0, 12).
    assert forall|k: int| 0 <= k < 7 implies 0 <= #[trigger] prefix_sum(steps, k) < 12 by {
        if k > 0 {
            lemma_prefix_monotone(steps, 0, k);
        }
        if k < 7 {
            lemma_prefix_monotone(steps, k, 7);
            lemma_prefix_total(steps);
        }
    }

    // So the seven pitch classes are distinct.
    assert forall|x: int, y: int| 0 <= x < y < 7 implies pcs[x] != pcs[y] by {
        lemma_prefix_monotone(steps, x, y);
        lemma_mod_add_inj(a, prefix_sum(steps, x), prefix_sum(steps, y));
    }
    assert(pcs.no_duplicates());
    pcs.unique_seq_to_set();

    // The tonic table is strictly ascending, hence duplicate-free.
    assert(tonic.no_duplicates());
    tonic.unique_seq_to_set();

    // The tonic table and the pitch-class walk hold the same values.
    assert forall|e: u8| tonic.to_set().contains(e) implies pcs.to_set().contains(e) by {
        assert(tonic.contains(e));
        let i = choose|i: int| 0 <= i < tonic.len() && tonic[i] == e;
        assert(0 <= e < 12);
        let p: int = e as int;
        assert(tonic.contains(p as u8));
        assert(spec_pitch_class_in(s, root, p % 12));
        let k = choose|k: int| 0 <= k < 7 && p % 12 == (a + prefix_sum(steps, k)) % 12;
        assert(pcs[k] == e);
        assert(pcs.contains(e));
    }
    assert forall|e: u8| pcs.to_set().contains(e) implies tonic.to_set().contains(e) by {
        assert(pcs.contains(e));
        let k = choose|k: int| 0 <= k < pcs.len() && pcs[k] == e;
        let p: int = e as int;
        assert(p == (a + prefix_sum(steps, k)) % 12);
        assert(spec_pitch_class_in(s, root, p % 12));
        assert(tonic.contains(p as u8));
        assert(tonic.contains(e));
    }
    assert(tonic.to_set() =~= pcs.to_set());
}

/// A seven-step pattern built element by element.
fn steps7(a: u8, b: u8, c: u8, d: u8, e: u8, f: u8, g: u8) -> (r: Vec<u8>)
    ensures
        r@ == seq![a, b, c, d, e, f, g],
{
    let mut r: Vec<u8> = Vec::new();
    r.push(a);
    r.push(b);
    r.push(c);
    r.push(d);
    r.push(e);
    r.push(f);
    r.push(g);
    proof {
        assert(r@ =~= seq![a, b, c, d, e, f, g]);
    }
    r
}

/// Linear scan for a pitch value.
fn contains_u8(v: &Vec<u8>, x: u8) -> (r: bool)
    ensures
        r == v@.contains(x),
{
    let mut i: usize = 0;
    while i < v.len()
        invariant
            i <= v@.len(),
            forall|j: int| 0 <= j < i ==> v@[j] != x,
        decreases v@.len() - i,
    {
        if v[i] == x {
            return true;
        }
        i += 1;
    }
    false
}

/// Collect, in ascending order, every pitch below `n` whose pitch class is
/// held by `cycle`.
fn collect_notes(s: &Scale, cycle: &Vec<u8>, root: u8, n: u16) -> (r: Vec<u8>)
    requires
        n <= 128,
        forall|pc: int|
            0 <= pc < 12 ==> (#[trigger] cycle@.contains(pc as u8) <==> spec_pitch_class_in(
                *s,
                root,
                pc,
            )),
    ensures
        r@ == notes_below(*s, root, n as int),
{
    let mut r: Vec<u8> = Vec::new();
    let mut p: u16 = 0;
    while p < n
        invariant
            p <= n <= 128,
            r@ == notes_below(*s, root, p as int),
            forall|pc: int|
                0 <= pc < 12 ==> (#[trigger] cycle@.contains(pc as u8) <==> spec_pitch_class_in(
                    *s,
                    root,
                    pc,
                )),
        decreases n - p,
    {
        let pc = (p % 12) as u8;
        if contains_u8(cycle, pc) {
            r.push(p as u8);
        }
        proof {
            assert(r@ =~= notes_below(*s, root, p as int + 1));
        }
        p += 1;
    }
    r
}

impl Scale {
    /// The seven pitch classes of this scale rooted at `root`, ascending:
    /// exactly the values in `[0, 12)` whose pitch class is in the scale.
    pub fn get_tonic_notes(&self, root: u8) -> (r: Vec<u8>)
        ensures
            r@ == notes_below(*self, root, 12),
            r@.len() == 7,
            forall|i: int| 0 <= i < r@.len() ==> #[trigger] r@[i] < 12,
            forall|i: int, j: int| 0 <= i < j < r@.len() ==> r@[i] < r@[j],
            forall|pc: int|
                0 <= pc < 12 ==> (#[trigger] r@.contains(pc as u8) <==> spec_pitch_class_in(
                    *self,
                    root,
                    pc,
                )),
    {
        let cycle = self.pitch_class_cycle(root);
        let r = collect_notes(self, &cycle, root, 12);
        proof {
            lemma_notes_below_wf(*self, root, 12);
            lemma_tonic_count(*self, root);
        }
        r
    }

    /// Every note of this scale across the whole MIDI pitch range, ascending:
    /// exactly the pitches in `[0, 127]` whose pitch class is in the scale.
    pub fn get_notes(&self, root: u8) -> (r: Vec<u8>)
        ensures
            r@ == spec_scale_notes(*self, root),
            forall|i: int| 0 <= i < r@.len() ==> #[trigger] r@[i] < 128,
            forall|i: int, j: int| 0 <= i < j < r@.len() ==> r@[i] < r@[j],
            forall|p: int|
                0 <= p < 128 ==> (#[trigger] r@.contains(p as u8) <==> spec_pitch_class_in(
                    *self,
                    root,
                    p % 12,
                )),
    {
        let cycle = self.pitch_class_cycle(root);
        let r = collect_notes(self, &cycle, root, 128);
        proof {
            lemma_notes_below_wf(*self, root, 128);
        }
        r
    }

    /// Walk the step pattern once from the root's pitch class, reducing each
    /// stop modulo one octave: the unsorted pitch classes of the scale.
    fn pitch_class_cycle(&self, root: u8) -> (cycle: Vec<u8>)
        ensures
            forall|pc: int|
                0 <= pc < 12 ==> (#[trigger] cycle@.contains(pc as u8) <==> spec_pitch_class_in(
                    *self,
                    root,
                    pc,
                )),
    {
        let intervals = self.get_intervals();
        proof {
            lemma_intervals_wf(*self);
        }
        let base = root % 12;
        let mut cycle: Vec<u8> = Vec::new();
        cycle.push(base);
        let mut cur: u8 = base;
        let mut i: usize = 0;
        while i < 6
            invariant
                intervals@ == spec_intervals(*self),
                forall|k: int| 0 <= k < 7 ==> 1 <= #[trigger] spec_intervals(*self)[k] <= 3,
                i <= 6,
                cycle@.len() == i + 1,
                cur == cycle@[i as int],
                cur < 12,
                forall|k: int|
                    0 <= k <= i ==> #[trigger] cycle@[k] == (root as int % 12 + prefix_sum(
                        spec_intervals(*self),
                        k,
                    )) % 12,
            decreases 6 - i,
        {
            let step = intervals[i];
            proof {
                vstd::arithmetic::div_mod::lemma_add_mod_noop_right(
                    step as int,
                    root as int % 12 + prefix_sum(spec_intervals(*self), i as int),
                    12,
                );
            }
            cur = (cur + step) % 12;
            cycle.push(cur);
            i += 1;
        }
        proof {
            assert forall|pc: int|
                0 <= pc < 12 implies (#[trigger] cycle@.contains(pc as u8)
                <==> spec_pitch_class_in(*self, root, pc)) by {
                if cycle@.contains(pc as u8) {
                    let k = choose|k: int| 0 <= k < cycle@.len() && cycle@[k] == pc as u8;
                    assert(pc == (root as int % 12 + prefix_sum(spec_intervals(*self), k)) % 12);
                }
                if spec_pitch_class_in(*self, root, pc) {
                    let k = choose|k: int|
                        0 <= k < 7 && pc == (root as int % 12 + prefix_sum(
                            spec_intervals(*self),
                            k,
                        )) % 12;
                    assert(cycle@[k] == pc as u8);
                    assert(cycle@.contains(pc as u8));
                }
            }
        }
        cycle
    }
}

/// The first position at or after `i` holding a note at or above `x`; the
/// sequence length if there is none.
pub open spec fn lb_from(s: Seq<u8>, x: u8, i: int) -> int
    decreases s.len() - i,
{
    if i < 0 || i >= s.len() {
        s.len() as int
    } else if s[i] >= x {
        i
    } else {
        lb_from(s, x, i + 1)
    }
}

/// The position of the first note at or above `x`; the sequence length if
/// there is none.
pub open spec fn spec_lower_bound(s: Seq<u8>, x: u8) -> int {
    lb_from(s, x, 0)
}

/// Scan for the first note at or above `x`.
fn lower_bound(notes: &Vec<u8>, x: u8) -> (r: usize)
    ensures
        r as int == spec_lower_bound(notes@, x),
        r <= notes@.len(),
        r < notes@.len() ==> notes@[r as int] >= x,
        forall|j: int| 0 <= j < r ==> notes@[j] < x,
{
    let mut i: usize = 0;
    while i < notes.len()
        invariant
            i <= notes@.len(),
            spec_lower_bound(notes@, x) == lb_from(notes@, x, i as int),
            forall|j: int| 0 <= j < i ==> notes@[j] < x,
        decreases notes@.len() - i,
    {
        if notes[i] >= x {
            return i;
        }
        i += 1;
    }
    i
}

/// A key: a root pitch class paired with a scale.
#[derive(Debug, Clone, Copy, PartialEq, Eq, Structural)]
pub struct Key {
    pub root: u8,
    pub scale: Scale,
}

impl Key {
    /// Whether the key is normalized: the root is a bare pitch class.
    pub open spec fn wf(self) -> bool {
        self.root < 12
    }

    /// Build a key, reducing the root to its pitch class.
    pub fn new(root: u8, scale: Scale) -> (r: Key)
        ensures
            r.root == root % 12,
            r.scale == scale,
            r.wf(),
    {
        Key { root: root % 12, scale }
    }

    /// The root pitch class.
    pub fn root(&self) -> (r: u8)
        ensures
            r == self.root,
    {
        self.root
    }

    /// Every note of the key's scale across the MIDI range, ascending.
    pub fn get_notes(&self) -> (r: Vec<u8>)
        ensures
            r@ == spec_scale_notes(self.scale, self.root),
    {
        self.scale.get_notes(self.root)
    }

    /// The scale-relative triad on `root`: the root itself, then the notes
    /// two and four scale positions above the first scale note at or above
    /// `root`; positions beyond the note table are omitted.
    pub fn get_triad(&self, root: u8) -> (r: Vec<u8>)
        ensures
            ({
                let ns = spec_scale_notes(self.scale, self.root);
                let i = spec_lower_bound(ns, root);
                r@ == seq![root] + (if i + 2 < ns.len() {
                    seq![ns[i + 2]]
                } else {
                    Seq::empty()
                }) + (if i + 4 < ns.len() {
                    seq![ns[i + 4]]
                } else {
                    Seq::empty()
                })
            }),
    {
        proof {
            lemma_notes_below_wf(self.scale, self.root, 128);
        }
        let notes = self.get_notes();
        let len = notes.len();
        let idx = lower_bound(&notes, root);
        let mut r: Vec<u8> = Vec::new();
        r.push(root);
        if len - idx > 2 {
            r.push(notes[idx + 2]);
        }
        if len - idx > 4 {
            r.push(notes[idx + 4]);
        }
        proof {
            let ns = spec_scale_notes(self.scale, self.root);
            let i = spec_lower_bound(ns, root);
            assert(r@ =~= seq![root] + (if i + 2 < ns.len() {
                seq![ns[i + 2]]
            } else {
                Seq::empty()
            }) + (if i + 4 < ns.len() {
                seq![ns[i + 4]]
            } else {
                Seq::empty()
            }));
        }
        r
    }

    /// The note `interval` scale positions above the first scale note at or
    /// above `root`, wrapping around the note table; none if no scale note
    /// is at or above `root`.
    pub fn get_interval(&self, root: u8, interval: u8) -> (r: Option<u8>)
        ensures
            ({
                let ns = spec_scale_notes(self.scale, self.root);
                let i = spec_lower_bound(ns, root);
                r == if i < ns.len() {
                    Some(ns[(i + interval as int) % (ns.len() as int)])
                } else {
                    None::<u8>
                }
            }),
    {
        proof {
            lemma_notes_below_wf(self.scale, self.root, 128);
        }
        let notes = self.get_notes();
        let idx = lower_bound(&notes, root);
        if idx < notes.len() {
            Some(notes[(idx + interval as usize) % notes.len()])
        } else {
            None
        }
    }
}

} // verus!
