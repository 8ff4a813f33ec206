//! The transformation pipeline: the chord tracking table and the per-event
//! expansion of inbound messages into scheduled outbound messages.

use vstd::prelude::*;
use crate::codec::MidiEvent;
use crate::codec::spec_classify;
use crate::codec::spec_encode;
use crate::codec::decode_message;
use crate::codec::encode_message;
use crate::codec::lemma_classify_ranges;
use crate::modifier::ModifierStack;
use crate::modifier::spec_companions;

verus! {

/// The delay, in milliseconds, between successive companion note-ons of one
/// strummed chord.
pub const STAGGER_MS: u64 = 10;

/// One tracked chord: the channel and root of a sounding note-on, with the
/// companion notes that were emitted for it.
#[derive(Debug)]
struct ChordEntry {
    channel: u8,
    root: u8,
    companions: Vec<u8>,
}

/// The key a tracked chord is filed under.
spec fn entry_key(e: ChordEntry) -> (u8, u8) {
    (e.channel, e.root)
}

/// Every entry is filed under a different (channel, root) key.
spec fn distinct_keys(s: Seq<ChordEntry>) -> bool {
    forall|i: int, j: int|
        0 <= i < j < s.len() ==> entry_key(#[trigger] s[i]) != entry_key(#[trigger] s[j])
}

/// Every tracked companion is a MIDI pitch.
spec fn companions_in_range(s: Seq<ChordEntry>) -> bool {
    forall|i: int, j: int|
        0 <= i < s.len() && 0 <= j < s[i].companions@.len() ==> #[trigger] s[i].companions@[j]
            < 128
}

/// The mapping a sequence of entries denotes, later entries overriding
/// earlier ones.
spec fn entries_map(s: Seq<ChordEntry>) -> Map<(u8, u8), Seq<u8>>
    decreases s.len(),
{
    if s.len() == 0 {
        Map::empty()
    } else {
        entries_map(s.drop_last()).insert(entry_key(s.last()), s.last().companions@)
    }
}

/// A key is in the denoted mapping exactly when some entry carries it.
proof fn lemma_entries_dom(s: Seq<ChordEntry>)
    ensures
        forall|k: (u8, u8)|
            #[trigger] entries_map(s).dom().contains(k) <==> exists|i: int|
                0 <= i < s.len() && entry_key(#[trigger] s[i]) == k,
    decreases s.len(),
{
    if s.len() > 0 {
        lemma_entries_dom(s.drop_last());
        let prev = s.drop_last();
        let k_last = entry_key(s.last());
        assert forall|k: (u8, u8)| #[trigger] entries_map(s).dom().contains(k) implies exists|
            i: int,
        | 0 <= i < s.len() && entry_key(#[trigger] s[i]) == k by {
            if k == k_last {
                assert(entry_key(s[s.len() - 1]) == k);
            } else {
                assert(entries_map(s) == entries_map(prev).insert(k_last, s.last().companions@));
                assert(entries_map(prev).dom().contains(k));
                let i = choose|i: int| 0 <= i < prev.len() && entry_key(#[trigger] prev[i]) == k;
                assert(prev[i] == s[i]);
                assert(entry_key(s[i]) == k);
            }
        }
        assert forall|k: (u8, u8)|
            (exists|i: int| 0 <= i < s.len() && entry_key(#[trigger] s[i]) == k) implies #[trigger] entries_map(
            s,
        ).dom().contains(k) by {
            let i = choose|i: int| 0 <= i < s.len() && entry_key(#[trigger] s[i]) == k;
            if i < s.len() - 1 {
                assert(entry_key(prev[i]) == k);
            }
        }
    }
}

/// Under distinct keys, each entry's companions are what the denoted
/// mapping holds at its key.
proof fn lemma_entries_lookup(s: Seq<ChordEntry>, i: int)
    requires
        distinct_keys(s),
        0 <= i < s.len(),
    ensures
        entries_map(s).dom().contains(entry_key(s[i])),
        entries_map(s)[entry_key(s[i])] == s[i].companions@,
    decreases s.len(),
{
    if i == s.len() - 1 {
    } else {
        assert(distinct_keys(s.drop_last()));
        assert(s.drop_last()[i] == s[i]);
        lemma_entries_lookup(s.drop_last(), i);
        assert(entry_key(s[i]) != entry_key(s[s.len() - 1]));
    }
}

/// Under distinct keys, dropping the entry at `i` removes exactly its key
/// from the denoted mapping.
proof fn lemma_entries_remove(s: Seq<ChordEntry>, i: int)
    requires
        distinct_keys(s),
        0 <= i < s.len(),
    ensures
        entries_map(s.remove(i)) == entries_map(s).remove(entry_key(s[i])),
    decreases s.len(),
{
    let k = entry_key(s[i]);
    if i == s.len() - 1 {
        assert(s.remove(i) =~= s.drop_last());
        lemma_entries_dom(s.drop_last());
        assert forall|j: int| 0 <= j < s.drop_last().len() implies entry_key(
            #[trigger] s.drop_last()[j],
        ) != k by {
            assert(s[j] == s.drop_last()[j]);
        }
        assert(!entries_map(s.drop_last()).dom().contains(k));
        assert(entries_map(s.remove(i)) =~= entries_map(s).remove(k));
    } else {
        assert(distinct_keys(s.drop_last()));
        assert(s.drop_last()[i] == s[i]);
        lemma_entries_remove(s.drop_last(), i);
        assert(s.remove(i).drop_last() =~= s.drop_last().remove(i));
        assert(s.remove(i).last() == s.last());
        assert(entry_key(s.last()) != k);
        assert(entries_map(s.remove(i)) =~= entries_map(s).remove(k));
    }
}

/// The chord tracking table: for each (channel, root) whose note-on is
/// sounding, the companion notes that were emitted with it. Viewed as a
/// mapping from (channel, root) to the companion sequence.
#[derive(Debug)]
pub struct ChordStatus {
    roots: Vec<ChordEntry>,
}

impl View for ChordStatus {
    type V = Map<(u8, u8), Seq<u8>>;

    closed spec fn view(&self) -> Map<(u8, u8), Seq<u8>> {
        entries_map(self.roots@)
    }
}

impl ChordStatus {
    /// The table's internal shape: one entry per key, pitches in range.
    pub closed spec fn wf(self) -> bool {
        distinct_keys(self.roots@) && companions_in_range(self.roots@)
    }

    /// An empty table.
    pub fn new() -> (r: ChordStatus)
        ensures
            r.wf(),
            r@ == Map::<(u8, u8), Seq<u8>>::empty(),
    {
        ChordStatus { roots: Vec::new() }
    }

    /// Record the companions emitted for a note-on, overwriting any stale
    /// entry for the same (channel, root).
    pub fn insert(&mut self, channel: u8, note: u8, chord: &Vec<u8>)
        requires
            old(self).wf(),
            forall|i: int| 0 <= i < chord@.len() ==> chord@[i] < 128,
        ensures
            final(self).wf(),
            final(self)@ == old(self)@.insert((channel, note), chord@),
    {
        self.remove_entry(channel, note);
        let ghost mid = self.roots@;
        let companions = copy_notes(chord);
        self.roots.push(ChordEntry { channel, root: note, companions });
        proof {
            assert(self.roots@.drop_last() =~= mid);
            assert(entries_map(self.roots@) =~= old(self)@.insert((channel, note), chord@));
            assert forall|i: int, j: int| 0 <= i < j < self.roots@.len() implies entry_key(
                #[trigger] self.roots@[i],
            ) != entry_key(#[trigger] self.roots@[j]) by {
                if j == self.roots@.len() - 1 {
                    assert(mid[i] == self.roots@[i]);
                }
            }
            assert(companions_in_range(self.roots@)) by {
                assert forall|i: int, j: int|
                    0 <= i < self.roots@.len() && 0 <= j
                        < self.roots@[i].companions@.len() implies #[trigger] self.roots@[i].companions@[j]
                    < 128 by {
                    if i < self.roots@.len() - 1 {
                        assert(mid[i] == self.roots@[i]);
                    }
                }
            }
        }
    }

    /// Look up the companions tracked for (channel, root) without changing
    /// the table.
    pub fn lookup(&self, channel: u8, note: u8) -> (r: Option<Vec<u8>>)
        requires
            self.wf(),
        ensures
            match r {
                Some(v) => self@.dom().contains((channel, note)) && v@ == self@[(channel, note)],
                None => !self@.dom().contains((channel, note)),
            },
    {
        match self.find_entry(channel, note) {
            Some(i) => {
                proof {
                    lemma_entries_lookup(self.roots@, i as int);
                }
                Some(copy_notes(&self.roots[i].companions))
            },
            None => {
                proof {
                    lemma_entries_dom(self.roots@);
                }
                None
            },
        }
    }

    /// Remove and return the companions tracked for (channel, root): the
    /// entry is consulted once, by the matching note-off, then deleted.
    pub fn take(&mut self, channel: u8, note: u8) -> (r: Option<Vec<u8>>)
        requires
            old(self).wf(),
        ensures
            final(self).wf(),
            match r {
                Some(v) => old(self)@.dom().contains((channel, note)) && v@ == old(self)@[
                    (channel, note)] && final(self)@ == old(self)@.remove((channel, note)) && (
                forall|i: int| 0 <= i < v@.len() ==> v@[i] < 128),
                None => !old(self)@.dom().contains((channel, note)) && final(self)@ == old(
                    self,
                )@,
            },
    {
        match self.find_entry(channel, note) {
            Some(i) => {
                proof {
                    lemma_entries_lookup(self.roots@, i as int);
                    lemma_entries_remove(self.roots@, i as int);
                }
                let entry = self.roots.remove(i);
                proof {
                    lemma_remove_keeps_shape(old(self).roots@, i as int);
                }
                Some(entry.companions)
            },
            None => {
                proof {
                    lemma_entries_dom(self.roots@);
                }
                None
            },
        }
    }

    /// Scan for the entry filed under (channel, root).
    fn find_entry(&self, channel: u8, note: u8) -> (r: Option<usize>)
        ensures
            match r {
                Some(i) => i < self.roots@.len() && entry_key(self.roots@[i as int]) == (
                (channel, note)),
                None => forall|j: int|
                    0 <= j < self.roots@.len() ==> entry_key(#[trigger] self.roots@[j]) != (
                    (channel, note)),
            },
    {
        let mut i: usize = 0;
        while i < self.roots.len()
            invariant
                i <= self.roots@.len(),
                forall|j: int|
                    0 <= j < i ==> entry_key(#[trigger] self.roots@[j]) != ((channel, note)),
            decreases self.roots@.len() - i,
        {
            if self.roots[i].channel == channel && self.roots[i].root == note {
                return Some(i);
            }
            i += 1;
        }
        None
    }

    /// Delete the entry filed under (channel, root), if any.
    fn remove_entry(&mut self, channel: u8, note: u8)
        requires
            old(self).wf(),
        ensures
            final(self).wf(),
            final(self)@ == old(self)@.remove((channel, note)),
            forall|i: int|
                0 <= i < final(self).roots@.len() ==> entry_key(#[trigger] final(self).roots@[i])
                    != ((channel, note)),
    {
        match self.find_entry(channel, note) {
            Some(i) => {
                proof {
                    lemma_entries_remove(self.roots@, i as int);
                }
                self.roots.remove(i);
                proof {
                    lemma_remove_keeps_shape(old(self).roots@, i as int);
                    assert forall|j: int| 0 <= j < self.roots@.len() implies entry_key(
                        #[trigger] self.roots@[j],
                    ) != ((channel, note)) by {
                        if j < i {
                            assert(old(self).roots@[j] == self.roots@[j]);
                        } else {
                            assert(old(self).roots@[j + 1] == self.roots@[j]);
                        }
                    }
                }
            },
            None => {
                proof {
                    lemma_entries_dom(self.roots@);
                    assert(!old(self)@.dom().contains((channel, note)));
                    assert(final(self)@ =~= old(self)@.remove((channel, note)));
                }
            },
        }
    }
}

/// Removing one entry keeps keys distinct and pitches in range.
proof fn lemma_remove_keeps_shape(s: Seq<ChordEntry>, i: int)
    requires
        distinct_keys(s),
        companions_in_range(s),
        0 <= i < s.len(),
    ensures
        distinct_keys(s.remove(i)),
        companions_in_range(s.remove(i)),
{
    let t = s.remove(i);
    assert forall|a: int, b: int| 0 <= a < b < t.len() implies entry_key(#[trigger] t[a])
        != entry_key(#[trigger] t[b]) by {
        let a0 = if a < i {
            a
        } else {
            a + 1
        };
        let b0 = if b < i {
            b
        } else {
            b + 1
        };
        assert(t[a] == s[a0] && t[b] == s[b0]);
    }
    assert forall|a: int, j: int|
        0 <= a < t.len() && 0 <= j < t[a].companions@.len() implies #[trigger] t[a].companions@[j]
        < 128 by {
        let a0 = if a < i {
            a
        } else {
            a + 1
        };
        assert(t[a] == s[a0]);
    }
}

/// One outbound raw message and the delay, from receipt of the inbound
/// event, after which it should be sent.
#[derive(Debug, Clone)]
pub struct ScheduledMessage {
    pub delay_ms: u64,
    pub bytes: Vec<u8>,
}

/// Expand one inbound raw message into the outbound messages it calls for.
///
/// A note-on is recorded in the tracking table — overwriting any stale
/// entry for its (channel, root) — and forwarded at once, followed by one
/// note-on per companion, staggered by `STAGGER_MS` per position to sound
/// as a strum. A note-off whose (channel, root) is tracked releases the
/// root and exactly the tracked companions, all without delay, and clears
/// the entry. A note-off with no tracked entry is dropped, a recoverable
/// inconsistency. Any other message kind — and any malformed byte sequence
/// — produces no output and leaves the table unchanged.
pub fn transform_message(stack: &ModifierStack, status: &mut ChordStatus, message: &Vec<u8>) -> (out:
    Vec<ScheduledMessage>)
    requires
        old(status).wf(),
    ensures
        final(status).wf(),
        ({
            let ev = spec_classify(message@);
            match ev {
                MidiEvent::NoteOn(c, n, v) => {
                    let comps = spec_companions(stack@, n);
                    &&& final(status)@ == old(status)@.insert((c, n), comps)
                    &&& out@.len() == 1 + comps.len()
                    &&& out@[0].delay_ms == 0
                    &&& out@[0].bytes@ == spec_encode(MidiEvent::NoteOn(c, n, v))
                    &&& forall|i: int|
                        1 <= i < out@.len() ==> (#[trigger] out@[i]).bytes@ == spec_encode(
                            MidiEvent::NoteOn(c, comps[i - 1], v),
                        ) && out@[i].delay_ms == i * STAGGER_MS
                },
                MidiEvent::NoteOff(c, n, v) => {
                    if old(status)@.dom().contains((c, n)) {
                        let comps = old(status)@[(c, n)];
                        &&& final(status)@ == old(status)@.remove((c, n))
                        &&& out@.len() == 1 + comps.len()
                        &&& forall|i: int|
                            0 <= i < out@.len() ==> (#[trigger] out@[i]).delay_ms == 0
                        &&& out@[0].bytes@ == spec_encode(MidiEvent::NoteOff(c, n, v))
                        &&& forall|i: int|
                            1 <= i < out@.len() ==> (#[trigger] out@[i]).bytes@ == spec_encode(
                                MidiEvent::NoteOff(c, comps[i - 1], v),
                            )
                    } else {
                        &&& final(status)@ == old(status)@
                        &&& out@.len() == 0
                    }
                },
                _ => final(status)@ == old(status)@ && out@.len() == 0,
            }
        }),
{
    let event = decode_message(message);
    proof {
        lemma_classify_ranges(message@);
    }
    match event {
        MidiEvent::NoteOn(channel, note, velocity) => {
            let companions = stack.get_notes(note);
            proof {
                crate::modifier::lemma_companions_bounded(stack@, note);
            }
            status.insert(channel, note, &companions);
            let mut out: Vec<ScheduledMessage> = Vec::new();
            let head = encode_message(&MidiEvent::NoteOn(channel, note, velocity));
            out.push(ScheduledMessage { delay_ms: 0, bytes: head });
            let mut i: usize = 0;
            while i < companions.len()
                invariant
                    companions@ == spec_companions(stack@, note),
                    companions@.len() <= 3,
                    forall|j: int| 0 <= j < companions@.len() ==> companions@[j] < 128,
                    channel < 16,
                    note < 128,
                    velocity < 128,
                    i <= companions@.len(),
                    out@.len() == i + 1,
                    out@[0].delay_ms == 0,
                    out@[0].bytes@ == spec_encode(MidiEvent::NoteOn(channel, note, velocity)),
                    forall|j: int|
                        1 <= j <= i ==> (#[trigger] out@[j]).bytes@ == spec_encode(
                            MidiEvent::NoteOn(channel, companions@[j - 1], velocity),
                        ) && out@[j].delay_ms == j * STAGGER_MS,
                decreases companions@.len() - i,
            {
                let delay = (i as u64 + 1) * STAGGER_MS;
                let msg = encode_message(&MidiEvent::NoteOn(channel, companions[i], velocity));
                out.push(ScheduledMessage { delay_ms: delay, bytes: msg });
                i += 1;
            }
            out
        },
        MidiEvent::NoteOff(channel, note, velocity) => {
            match status.take(channel, note) {
                Some(companions) => {
                    let ghost comps = old(status)@[(channel, note)];
                    let mut out: Vec<ScheduledMessage> = Vec::new();
                    let head = encode_message(&MidiEvent::NoteOff(channel, note, velocity));
                    out.push(ScheduledMessage { delay_ms: 0, bytes: head });
                    let mut i: usize = 0;
                    while i < companions.len()
                        invariant
                            companions@ == comps,
                            forall|j: int| 0 <= j < companions@.len() ==> companions@[j] < 128,
                            channel < 16,
                            note < 128,
                            velocity < 128,
                            i <= companions@.len(),
                            out@.len() == i + 1,
                            forall|j: int| 0 <= j < out@.len() ==> (#[trigger] out@[j]).delay_ms
                                == 0,
                            out@[0].bytes@ == spec_encode(
                                MidiEvent::NoteOff(channel, note, velocity),
                            ),
                            forall|j: int|
                                1 <= j <= i ==> (#[trigger] out@[j]).bytes@ == spec_encode(
                                    MidiEvent::NoteOff(channel, companions@[j - 1], velocity),
                                ),
                        decreases companions@.len() - i,
                    {
                        let msg = encode_message(
                            &MidiEvent::NoteOff(channel, companions[i], velocity),
                        );
                        out.push(ScheduledMessage { delay_ms: 0, bytes: msg });
                        i += 1;
                    }
                    out
                },
                None => Vec::new(),
            }
        },
        _ => Vec::new(),
    }
}

/// An element-for-element copy of a pitch list.
fn copy_notes(v: &Vec<u8>) -> (r: Vec<u8>)
    ensures
        r@ == v@,
{
    let mut r: Vec<u8> = Vec::new();
    let mut i: usize = 0;
    while i < v.len()
        invariant
            i <= v@.len(),
            r@ == v@.subrange(0, i as int),
        decreases v@.len() - i,
    {
        r.push(v[i]);
        proof {
            assert(r@ =~= v@.subrange(0, i as int + 1));
        }
        i += 1;
    }
    proof {
        assert(v@.subrange(0, v@.len() as int) =~= v@);
    }
    r
}

} // verus!
