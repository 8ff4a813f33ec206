//! Chord modifiers and the stack of currently-held modifiers.
//!
//! Each modifier category keeps the held values in press order and never
//! holds duplicates: pressing a held value is idempotent, releasing removes
//! every occurrence. The *active* value of a category is the one pressed
//! most recently and still held — its sequence's last element.

use vstd::prelude::*;
use vstd::string::StringExecFns;
use crate::codec::MidiEvent;

verus! {

/// Semitone offsets of a triad's third and fifth above its root.
#[derive(Debug, Clone, Copy, PartialEq, Eq, Structural)]
pub struct Triad {
    pub third: i8,
    pub fifth: i8,
}

/// The triad flavour: it fixes the third/fifth interval pair.
#[derive(Debug, Clone, Copy, PartialEq, Eq, Structural)]
pub enum Quality {
    Diminished,
    Minor,
    Major,
    Augmented,
    Sus2,
    Sus4,
}

/// The interval pair of each triad flavour.
pub open spec fn spec_triad(q: Quality) -> Triad {
    match q {
        Quality::Diminished => Triad { third: 3, fifth: 6 },
        Quality::Minor => Triad { third: 3, fifth: 7 },
        Quality::Major => Triad { third: 4, fifth: 7 },
        Quality::Augmented => Triad { third: 4, fifth: 8 },
        Quality::Sus2 => Triad { third: 2, fifth: 7 },
        Quality::Sus4 => Triad { third: 5, fifth: 7 },
    }
}

impl Quality {
    /// The semitone offsets of this quality's third and fifth.
    pub fn get_triad(&self) -> (r: Triad)
        ensures
            r == spec_triad(*self),
    {
        match self {
            Quality::Diminished => Triad { third: 3, fifth: 6 },
            Quality::Minor => Triad { third: 3, fifth: 7 },
            Quality::Major => Triad { third: 4, fifth: 7 },
            Quality::Augmented => Triad { third: 4, fifth: 8 },
            Quality::Sus2 => Triad { third: 2, fifth: 7 },
            Quality::Sus4 => Triad { third: 5, fifth: 7 },
        }
    }
}

/// A colour tone added above the root.
#[derive(Debug, Clone, Copy, PartialEq, Eq, Structural)]
pub enum Extension {
    FlatSixth,
    Sixth,
    MinorSeventh,
    MajorSeventh,
    FlatNinth,
    Ninth,
    SharpNinth,
    FlatEleventh,
    Eleventh,
    SharpEleventh,
    FlatThirteenth,
    Thirteenth,
    SharpThirteenth,
}

/// The fixed semitone offset of each extension above the root.
pub open spec fn spec_semitones(e: Extension) -> i8 {
    match e {
        Extension::FlatSixth => 8,
        Extension::Sixth => 9,
        Extension::MinorSeventh => 10,
        Extension::MajorSeventh => 11,
        Extension::FlatNinth => 13,
        Extension::Ninth => 14,
        Extension::SharpNinth => 15,
        Extension::FlatEleventh => 16,
        Extension::Eleventh => 17,
        Extension::SharpEleventh => 18,
        Extension::FlatThirteenth => 20,
        Extension::Thirteenth => 21,
        Extension::SharpThirteenth => 22,
    }
}

impl Extension {
    /// The semitone offset of this extension above the root.
    pub fn get_semitones(&self) -> (r: i8)
        ensures
            r == spec_semitones(*self),
    {
        match self {
            Extension::FlatSixth => 8,
            Extension::Sixth => 9,
            Extension::MinorSeventh => 10,
            Extension::MajorSeventh => 11,
            Extension::FlatNinth => 13,
            Extension::Ninth => 14,
            Extension::SharpNinth => 15,
            Extension::FlatEleventh => 16,
            Extension::Eleventh => 17,
            Extension::SharpEleventh => 18,
            Extension::FlatThirteenth => 20,
            Extension::Thirteenth => 21,
            Extension::SharpThirteenth => 22,
        }
    }
}

/// Intended note reordering. Tracked like the other categories but not yet
/// consumed by note resolution.
#[derive(Debug, Clone, Copy, PartialEq, Eq, Structural)]
pub enum Inversion {
    Root,
    First,
    Second,
    Third,
}

/// One chord modifier of any category.
#[derive(Debug, Clone, Copy, PartialEq, Eq, Structural)]
pub enum Modifier {
    Quality(Quality),
    Extension(Extension),
    Inversion(Inversion),
}

/// The three modifier stacks as mathematical sequences.
#[verifier::ext_equal]
pub struct StackModel {
    pub qualities: Seq<Quality>,
    pub extensions: Seq<Extension>,
    pub inversions: Seq<Inversion>,
}

/// Press a value onto a category: append it unless it is already held.
pub open spec fn press<T>(s: Seq<T>, x: T) -> Seq<T> {
    if s.contains(x) {
        s
    } else {
        s.push(x)
    }
}

/// Release a value from a category: remove every occurrence.
pub open spec fn release<T>(s: Seq<T>, x: T) -> Seq<T>
    decreases s.len(),
{
    if s.len() == 0 {
        Seq::empty()
    } else {
        release(s.drop_last(), x) + if s.last() == x {
            Seq::<T>::empty()
        } else {
            seq![s.last()]
        }
    }
}

/// One category update: press or release.
pub open spec fn upd<T>(s: Seq<T>, x: T, pressed: bool) -> Seq<T> {
    if pressed {
        press(s, x)
    } else {
        release(s, x)
    }
}

/// The whole stack after one modifier update.
pub open spec fn spec_update(m: StackModel, modifier: Modifier, pressed: bool) -> StackModel {
    match modifier {
        Modifier::Quality(q) => StackModel { qualities: upd(m.qualities, q, pressed), ..m },
        Modifier::Extension(e) => StackModel { extensions: upd(m.extensions, e, pressed), ..m },
        Modifier::Inversion(i) => StackModel { inversions: upd(m.inversions, i, pressed), ..m },
    }
}

/// Whether the stack holds `modifier` in its category.
pub open spec fn spec_holds(m: StackModel, modifier: Modifier) -> bool {
    match modifier {
        Modifier::Quality(q) => m.qualities.contains(q),
        Modifier::Extension(e) => m.extensions.contains(e),
        Modifier::Inversion(i) => m.inversions.contains(i),
    }
}

/// The active quality: the most recently pressed one still held.
pub open spec fn active_quality(m: StackModel) -> Option<Quality> {
    if m.qualities.len() == 0 {
        None
    } else {
        Some(m.qualities.last())
    }
}

/// The active extension: the most recently pressed one still held.
pub open spec fn active_extension(m: StackModel) -> Option<Extension> {
    if m.extensions.len() == 0 {
        None
    } else {
        Some(m.extensions.last())
    }
}

/// The active inversion: the most recently pressed one still held.
pub open spec fn active_inversion(m: StackModel) -> Option<Inversion> {
    if m.inversions.len() == 0 {
        None
    } else {
        Some(m.inversions.last())
    }
}

/// One companion pitch `offset` semitones from `root`; omitted when the
/// step would leave the MIDI range.
pub open spec fn step_note(root: u8, offset: int) -> Seq<u8> {
    if 0 <= root + offset <= 127 {
        seq![(root + offset) as u8]
    } else {
        Seq::empty()
    }
}

/// The companion notes resolved for a root: the active quality's third and
/// fifth, then the active extension's colour tone. Steps outside the MIDI
/// range are omitted, never an error. When no quality is held there is no
/// fallback quality: no triad companions sound, and likewise an empty
/// extension stack adds no colour tone.
pub open spec fn spec_companions(m: StackModel, root: u8) -> Seq<u8> {
    (match active_quality(m) {
        Some(q) => step_note(root, spec_triad(q).third as int) + step_note(
            root,
            spec_triad(q).fifth as int,
        ),
        None => Seq::empty(),
    }) + (match active_extension(m) {
        Some(e) => step_note(root, spec_semitones(e) as int),
        None => Seq::empty(),
    })
}

/// A root never resolves to more than three companions — a third, a fifth
/// and one colour tone — and each companion is a MIDI pitch.
pub proof fn lemma_companions_bounded(m: StackModel, root: u8)
    ensures
        spec_companions(m, root).len() <= 3,
        forall|i: int|
            0 <= i < spec_companions(m, root).len() ==> #[trigger] spec_companions(m, root)[i]
                < 128,
{
}

/// The currently held chord modifiers, one stack per category, in press
/// order and free of duplicates.
#[derive(Debug, Clone)]
pub struct ModifierStack {
    pub qualities: Vec<Quality>,
    pub extensions: Vec<Extension>,
    pub inversions: Vec<Inversion>,
}

impl View for ModifierStack {
    type V = StackModel;

    open spec fn view(&self) -> StackModel {
        StackModel {
            qualities: self.qualities@,
            extensions: self.extensions@,
            inversions: self.inversions@,
        }
    }
}

impl ModifierStack {
    /// An empty stack: no modifier held, no category active.
    pub fn new() -> (r: ModifierStack)
        ensures
            r@.qualities.len() == 0,
            r@.extensions.len() == 0,
            r@.inversions.len() == 0,
    {
        ModifierStack { qualities: Vec::new(), extensions: Vec::new(), inversions: Vec::new() }
    }

    /// Apply one modifier press or release to its category.
    pub fn update(&mut self, modifier: Modifier, is_pressed: bool)
        ensures
            final(self)@ == spec_update(old(self)@, modifier, is_pressed),
    {
        match modifier {
            Modifier::Quality(q) => self.update_quality(q, is_pressed),
            Modifier::Extension(e) => self.update_extension(e, is_pressed),
            Modifier::Inversion(i) => self.update_inversion(i, is_pressed),
        }
    }

    /// Press or release a quality.
    pub fn update_quality(&mut self, quality: Quality, is_pressed: bool)
        ensures
            final(self)@.qualities == upd(old(self)@.qualities, quality, is_pressed),
            final(self)@.extensions == old(self)@.extensions,
            final(self)@.inversions == old(self)@.inversions,
    {
        if is_pressed {
            if !contains_quality(&self.qualities, quality) {
                self.qualities.push(quality);
            }
        } else {
            self.qualities = retain_quality(&self.qualities, quality);
        }
    }

    /// Press or release an extension.
    pub fn update_extension(&mut self, extension: Extension, is_pressed: bool)
        ensures
            final(self)@.extensions == upd(old(self)@.extensions, extension, is_pressed),
            final(self)@.qualities == old(self)@.qualities,
            final(self)@.inversions == old(self)@.inversions,
    {
        if is_pressed {
            if !contains_extension(&self.extensions, extension) {
                self.extensions.push(extension);
            }
        } else {
            self.extensions = retain_extension(&self.extensions, extension);
        }
    }

    /// Press or release an inversion.
    pub fn update_inversion(&mut self, inversion: Inversion, is_pressed: bool)
        ensures
            final(self)@.inversions == upd(old(self)@.inversions, inversion, is_pressed),
            final(self)@.qualities == old(self)@.qualities,
            final(self)@.extensions == old(self)@.extensions,
    {
        if is_pressed {
            if !contains_inversion(&self.inversions, inversion) {
                self.inversions.push(inversion);
            }
        } else {
            self.inversions = retain_inversion(&self.inversions, inversion);
        }
    }

    /// The companion notes for a root under the active modifiers.
    pub fn get_notes(&self, root: u8) -> (r: Vec<u8>)
        ensures
            r@ == spec_companions(self@, root),
    {
        let mut notes: Vec<u8> = Vec::new();
        if self.qualities.len() > 0 {
            let q = self.qualities[self.qualities.len() - 1];
            let t = q.get_triad();
            push_step(&mut notes, root, t.third);
            push_step(&mut notes, root, t.fifth);
        }
        if self.extensions.len() > 0 {
            let e = self.extensions[self.extensions.len() - 1];
            push_step(&mut notes, root, e.get_semitones());
        }
        proof {
            assert(notes@ =~= spec_companions(self@, root));
        }
        notes
    }
}

/// The written name of the active quality; empty when none is held.
pub open spec fn spec_quality_name(q: Option<Quality>) -> Seq<char> {
    match q {
        None => Seq::empty(),
        Some(Quality::Major) => "maj"@,
        Some(Quality::Minor) => "min"@,
        Some(Quality::Diminished) => "dim"@,
        Some(Quality::Augmented) => "aug"@,
        Some(Quality::Sus2) => "sus2"@,
        Some(Quality::Sus4) => "sus4"@,
    }
}

/// The written name of the active extension; empty when none is held.
pub open spec fn spec_extension_name(e: Option<Extension>) -> Seq<char> {
    match e {
        None => Seq::empty(),
        Some(Extension::Sixth) => "6"@,
        Some(Extension::MinorSeventh) => "7"@,
        Some(Extension::MajorSeventh) => "maj7"@,
        Some(Extension::Ninth) => "9"@,
        Some(Extension::FlatSixth) => "b6"@,
        Some(Extension::FlatNinth) => "b9"@,
        Some(Extension::FlatEleventh) => "b11"@,
        Some(Extension::Eleventh) => "11"@,
        Some(Extension::SharpNinth) => "#9"@,
        Some(Extension::SharpEleventh) => "#11"@,
        Some(Extension::FlatThirteenth) => "b13"@,
        Some(Extension::Thirteenth) => "13"@,
        Some(Extension::SharpThirteenth) => "#13"@,
    }
}

/// The written name of the active inversion; empty when none is held and
/// for root position.
pub open spec fn spec_inversion_name(i: Option<Inversion>) -> Seq<char> {
    match i {
        None => Seq::empty(),
        Some(Inversion::Root) => Seq::empty(),
        Some(Inversion::First) => "/1"@,
        Some(Inversion::Second) => "/2"@,
        Some(Inversion::Third) => "/3"@,
    }
}

/// The chord name the stack displays: the active quality's name, then the
/// active extension's, then the active inversion's.
pub open spec fn spec_chord_name(m: StackModel) -> Seq<char> {
    spec_quality_name(active_quality(m)) + spec_extension_name(active_extension(m))
        + spec_inversion_name(active_inversion(m))
}

impl ModifierStack {
    /// The chord name under the active modifiers, such as "maj7" or
    /// "min9/1"; empty when nothing is held.
    pub fn name(&self) -> (r: String)
        ensures
            r@ == spec_chord_name(self@),
    {
        let mut s = String::new();
        if self.qualities.len() > 0 {
            match self.qualities[self.qualities.len() - 1] {
                Quality::Major => s.append("maj"),
                Quality::Minor => s.append("min"),
                Quality::Diminished => s.append("dim"),
                Quality::Augmented => s.append("aug"),
                Quality::Sus2 => s.append("sus2"),
                Quality::Sus4 => s.append("sus4"),
            }
        }
        if self.extensions.len() > 0 {
            match self.extensions[self.extensions.len() - 1] {
                Extension::Sixth => s.append("6"),
                Extension::MinorSeventh => s.append("7"),
                Extension::MajorSeventh => s.append("maj7"),
                Extension::Ninth => s.append("9"),
                Extension::FlatSixth => s.append("b6"),
                Extension::FlatNinth => s.append("b9"),
                Extension::FlatEleventh => s.append("b11"),
                Extension::Eleventh => s.append("11"),
                Extension::SharpNinth => s.append("#9"),
                Extension::SharpEleventh => s.append("#11"),
                Extension::FlatThirteenth => s.append("b13"),
                Extension::Thirteenth => s.append("13"),
                Extension::SharpThirteenth => s.append("#13"),
            }
        }
        if self.inversions.len() > 0 {
            match self.inversions[self.inversions.len() - 1] {
                Inversion::Root => (),
                Inversion::First => s.append("/1"),
                Inversion::Second => s.append("/2"),
                Inversion::Third => s.append("/3"),
            }
        }
        proof {
            assert(s@ =~= spec_chord_name(self@));
        }
        s
    }
}

/// Transpose `root` by `offset` and append the result, omitting steps that
/// leave the MIDI range.
fn push_step(notes: &mut Vec<u8>, root: u8, offset: i8)
    ensures
        final(notes)@ == old(notes)@ + step_note(root, offset as int),
{
    let t: i16 = root as i16 + offset as i16;
    if t >= 0 && t <= 127 {
        notes.push(t as u8);
    }
    proof {
        assert(notes@ =~= old(notes)@ + step_note(root, offset as int));
    }
}

/// Linear scan of a quality stack.
fn contains_quality(v: &Vec<Quality>, x: Quality) -> (r: bool)
    ensures
        r == v@.contains(x),
{
    let mut i: usize = 0;
    while i < v.len()
        invariant
            i <= v@.len(),
            forall|j: int| 0 <= j < i ==> v@[j] != x,
        decreases v@.len() - i,
    {
        if v[i] == x {
            return true;
        }
        i += 1;
    }
    false
}

/// Linear scan of an extension stack.
fn contains_extension(v: &Vec<Extension>, x: Extension) -> (r: bool)
    ensures
        r == v@.contains(x),
{
    let mut i: usize = 0;
    while i < v.len()
        invariant
            i <= v@.len(),
            forall|j: int| 0 <= j < i ==> v@[j] != x,
        decreases v@.len() - i,
    {
        if v[i] == x {
            return true;
        }
        i += 1;
    }
    false
}

/// Linear scan of an inversion stack.
fn contains_inversion(v: &Vec<Inversion>, x: Inversion) -> (r: bool)
    ensures
        r == v@.contains(x),
{
    let mut i: usize = 0;
    while i < v.len()
        invariant
            i <= v@.len(),
            forall|j: int| 0 <= j < i ==> v@[j] != x,
        decreases v@.len() - i,
    {
        if v[i] == x {
            return true;
        }
        i += 1;
    }
    false
}

/// All elements of a quality stack except `x`, in order.
fn retain_quality(v: &Vec<Quality>, x: Quality) -> (r: Vec<Quality>)
    ensures
        r@ == release(v@, x),
{
    let mut r: Vec<Quality> = Vec::new();
    let mut i: usize = 0;
    while i < v.len()
        invariant
            i <= v@.len(),
            r@ == release(v@.subrange(0, i as int), x),
        decreases v@.len() - i,
    {
        proof {
            assert(v@.subrange(0, i as int + 1).drop_last() =~= v@.subrange(0, i as int));
            assert(v@.subrange(0, i as int + 1).last() == v@[i as int]);
        }
        if v[i] != x {
            r.push(v[i]);
        }
        proof {
            assert(r@ =~= release(v@.subrange(0, i as int + 1), x));
        }
        i += 1;
    }
    proof {
        assert(v@.subrange(0, v@.len() as int) =~= v@);
    }
    r
}

/// All elements of an extension stack except `x`, in order.
fn retain_extension(v: &Vec<Extension>, x: Extension) -> (r: Vec<Extension>)
    ensures
        r@ == release(v@, x),
{
    let mut r: Vec<Extension> = Vec::new();
    let mut i: usize = 0;
    while i < v.len()
        invariant
            i <= v@.len(),
            r@ == release(v@.subrange(0, i as int), x),
        decreases v@.len() - i,
    {
        proof {
            assert(v@.subrange(0, i as int + 1).drop_last() =~= v@.subrange(0, i as int));
            assert(v@.subrange(0, i as int + 1).last() == v@[i as int]);
        }
        if v[i] != x {
            r.push(v[i]);
        }
        proof {
            assert(r@ =~= release(v@.subrange(0, i as int + 1), x));
        }
        i += 1;
    }
    proof {
        assert(v@.subrange(0, v@.len() as int) =~= v@);
    }
    r
}

/// All elements of an inversion stack except `x`, in order.
fn retain_inversion(v: &Vec<Inversion>, x: Inversion) -> (r: Vec<Inversion>)
    ensures
        r@ == release(v@, x),
{
    let mut r: Vec<Inversion> = Vec::new();
    let mut i: usize = 0;
    while i < v.len()
        invariant
            i <= v@.len(),
            r@ == release(v@.subrange(0, i as int), x),
        decreases v@.len() - i,
    {
        proof {
            assert(v@.subrange(0, i as int + 1).drop_last() =~= v@.subrange(0, i as int));
            assert(v@.subrange(0, i as int + 1).last() == v@[i as int]);
        }
        if v[i] != x {
            r.push(v[i]);
        }
        proof {
            assert(r@ =~= release(v@.subrange(0, i as int + 1), x));
        }
        i += 1;
    }
    proof {
        assert(v@.subrange(0, v@.len() as int) =~= v@);
    }
    r
}

/// Releasing a value that is not held leaves the category unchanged.
proof fn lemma_release_absent<T>(s: Seq<T>, x: T)
    requires
        !s.contains(x),
    ensures
        release(s, x) == s,
    decreases s.len(),
{
    if s.len() > 0 {
        assert(!s.drop_last().contains(x)) by {
            if s.drop_last().contains(x) {
                let i = choose|i: int| 0 <= i < s.drop_last().len() && s.drop_last()[i] == x;
                assert(s[i] == x);
            }
        }
        lemma_release_absent(s.drop_last(), x);
        assert(s.last() != x) by {
            assert(s[s.len() - 1] == s.last());
        }
        assert(release(s, x) =~= s);
    } else {
        assert(release(s, x) =~= s);
    }
}

/// Releasing a value just pressed onto a category where it was not held
/// restores the category exactly.
proof fn lemma_release_push<T>(s: Seq<T>, x: T)
    requires
        !s.contains(x),
    ensures
        release(s.push(x), x) == s,
{
    assert(s.push(x).drop_last() =~= s);
    assert(s.push(x).last() == x);
    lemma_release_absent(s, x);
    assert(release(s.push(x), x) =~= s);
}

/// Pressing is idempotent: pressing a modifier that is already held — in
/// particular, pressing the same modifier twice — changes nothing, so the
/// active value of every category is unchanged.
pub proof fn lemma_press_idempotent(m: StackModel, modifier: Modifier)
    ensures
        spec_update(spec_update(m, modifier, true), modifier, true) == spec_update(
            m,
            modifier,
            true,
        ),
{
    match modifier {
        Modifier::Quality(q) => {
            assert(press(m.qualities, q).contains(q)) by {
                if !m.qualities.contains(q) {
                    assert(m.qualities.push(q)[m.qualities.len() as int] == q);
                }
            }
        },
        Modifier::Extension(e) => {
            assert(press(m.extensions, e).contains(e)) by {
                if !m.extensions.contains(e) {
                    assert(m.extensions.push(e)[m.extensions.len() as int] == e);
                }
            }
        },
        Modifier::Inversion(i) => {
            assert(press(m.inversions, i).contains(i)) by {
                if !m.inversions.contains(i) {
                    assert(m.inversions.push(i)[m.inversions.len() as int] == i);
                }
            }
        },
    }
}

/// Releasing a modifier that was never pressed is a no-op on the whole
/// stack.
pub proof fn lemma_release_unheld(m: StackModel, modifier: Modifier)
    requires
        !spec_holds(m, modifier),
    ensures
        spec_update(m, modifier, false) == m,
{
    match modifier {
        Modifier::Quality(q) => lemma_release_absent(m.qualities, q),
        Modifier::Extension(e) => lemma_release_absent(m.extensions, e),
        Modifier::Inversion(i) => lemma_release_absent(m.inversions, i),
    }
}

/// Last pressed wins: pressing a quality that is not yet held makes it the
/// active quality — whatever was held before — and releasing it again
/// restores the stack exactly, so the previously active quality is active
/// again.
pub proof fn lemma_last_pressed_wins(m: StackModel, q: Quality)
    requires
        !m.qualities.contains(q),
    ensures
        active_quality(spec_update(m, Modifier::Quality(q), true)) == Some(q),
        spec_update(spec_update(m, Modifier::Quality(q), true), Modifier::Quality(q), false) == m,
{
    lemma_release_push(m.qualities, q);
}

/// A keyboard key, reduced to the keys the engine maps; every other key is
/// `Other`.
#[derive(Debug, Clone, Copy, PartialEq, Eq, Structural)]
pub enum KeyCode {
    Numpad1,
    Numpad2,
    Numpad3,
    Numpad4,
    Numpad5,
    Numpad6,
    Numpad7,
    Numpad8,
    Numpad9,
    NumpadAdd,
    NumpadSubtract,
    NumpadEnter,
    Other,
}

/// Either source of modifier input — keyboard or MIDI — as plain decoded
/// values.
#[derive(Debug, Clone, Copy, PartialEq, Eq, Structural)]
pub enum MappingInput {
    Keycode(KeyCode),
    MidiMessage(MidiEvent),
}

/// A rule mapping input events to chord modifiers and their pressed state.
pub trait ModifierMapping {
    /// The mapping as a function of the input.
    spec fn spec_modifier(input: MappingInput) -> Option<(Modifier, bool)>;

    /// The modifier selected by `input`, if any.
    fn get_modifier(input: MappingInput) -> (r: Option<(Modifier, bool)>)
        ensures
            r == Self::spec_modifier(input),
    ;
}

/// Maps numpad keys to modifiers; key events always report pressed, the
/// caller supplies the release edge separately.
pub struct KeyboardMapping;

/// Maps the control-change numbers sent by an OP-XY controller to
/// modifiers; the controller value's sign of life (nonzero) is the pressed
/// state.
pub struct OPXYMapping;

impl ModifierMapping for KeyboardMapping {
    open spec fn spec_modifier(input: MappingInput) -> Option<(Modifier, bool)> {
        match input {
            MappingInput::Keycode(key) => match key {
                KeyCode::Numpad7 => Some((Modifier::Quality(Quality::Diminished), true)),
                KeyCode::Numpad8 => Some((Modifier::Quality(Quality::Minor), true)),
                KeyCode::Numpad9 => Some((Modifier::Quality(Quality::Major), true)),
                KeyCode::NumpadSubtract => Some((Modifier::Quality(Quality::Augmented), true)),
                KeyCode::Numpad4 => Some((Modifier::Extension(Extension::Sixth), true)),
                KeyCode::Numpad5 => Some((Modifier::Extension(Extension::MinorSeventh), true)),
                KeyCode::Numpad6 => Some((Modifier::Extension(Extension::MajorSeventh), true)),
                KeyCode::NumpadAdd => Some((Modifier::Extension(Extension::Ninth), true)),
                KeyCode::Numpad1 => Some((Modifier::Inversion(Inversion::Root), true)),
                KeyCode::Numpad2 => Some((Modifier::Inversion(Inversion::First), true)),
                KeyCode::Numpad3 => Some((Modifier::Inversion(Inversion::Second), true)),
                KeyCode::NumpadEnter => Some((Modifier::Inversion(Inversion::Third), true)),
                KeyCode::Other => None,
            },
            _ => None,
        }
    }

    fn get_modifier(input: MappingInput) -> (r: Option<(Modifier, bool)>) {
        match input {
            MappingInput::Keycode(key) => match key {
                KeyCode::Numpad7 => Some((Modifier::Quality(Quality::Diminished), true)),
                KeyCode::Numpad8 => Some((Modifier::Quality(Quality::Minor), true)),
                KeyCode::Numpad9 => Some((Modifier::Quality(Quality::Major), true)),
                KeyCode::NumpadSubtract => Some((Modifier::Quality(Quality::Augmented), true)),
                KeyCode::Numpad4 => Some((Modifier::Extension(Extension::Sixth), true)),
                KeyCode::Numpad5 => Some((Modifier::Extension(Extension::MinorSeventh), true)),
                KeyCode::Numpad6 => Some((Modifier::Extension(Extension::MajorSeventh), true)),
                KeyCode::NumpadAdd => Some((Modifier::Extension(Extension::Ninth), true)),
                KeyCode::Numpad1 => Some((Modifier::Inversion(Inversion::Root), true)),
                KeyCode::Numpad2 => Some((Modifier::Inversion(Inversion::First), true)),
                KeyCode::Numpad3 => Some((Modifier::Inversion(Inversion::Second), true)),
                KeyCode::NumpadEnter => Some((Modifier::Inversion(Inversion::Third), true)),
                KeyCode::Other => None,
            },
            _ => None,
        }
    }
}

impl ModifierMapping for OPXYMapping {
    open spec fn spec_modifier(input: MappingInput) -> Option<(Modifier, bool)> {
        match input {
            MappingInput::MidiMessage(MidiEvent::ControlChange(_, function, value)) => match function {
                7u8 => Some((Modifier::Quality(Quality::Major), value > 0)),
                8u8 => Some((Modifier::Quality(Quality::Minor), value > 0)),
                9u8 => Some((Modifier::Quality(Quality::Diminished), value > 0)),
                10u8 => Some((Modifier::Quality(Quality::Augmented), value > 0)),
                61u8 => Some((Modifier::Extension(Extension::Sixth), value > 0)),
                62u8 => Some((Modifier::Extension(Extension::MinorSeventh), value > 0)),
                63u8 => Some((Modifier::Extension(Extension::MajorSeventh), value > 0)),
                64u8 => Some((Modifier::Extension(Extension::Ninth), value > 0)),
                _ => None,
            },
            _ => None,
        }
    }

    fn get_modifier(input: MappingInput) -> (r: Option<(Modifier, bool)>) {
        match input {
            MappingInput::MidiMessage(MidiEvent::ControlChange(_, function, value)) => match function {
                7u8 => Some((Modifier::Quality(Quality::Major), value > 0)),
                8u8 => Some((Modifier::Quality(Quality::Minor), value > 0)),
                9u8 => Some((Modifier::Quality(Quality::Diminished), value > 0)),
                10u8 => Some((Modifier::Quality(Quality::Augmented), value > 0)),
                61u8 => Some((Modifier::Extension(Extension::Sixth), value > 0)),
                62u8 => Some((Modifier::Extension(Extension::MinorSeventh), value > 0)),
                63u8 => Some((Modifier::Extension(Extension::MajorSeventh), value > 0)),
                64u8 => Some((Modifier::Extension(Extension::Ninth), value > 0)),
                _ => None,
            },
            _ => None,
        }
    }
}

} // verus!
