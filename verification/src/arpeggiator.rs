//! The arpeggiator sequencer's per-tick decisions: note selection, cursor
//! advance and tempo math. The timing loop around them lives with the
//! runtime, outside the engine.

use vstd::prelude::*;
use crate::state::ArpeggiatorState;
use crate::state::GlobalState;
use crate::state::Perform;
use crate::state::PerformState;
use crate::state::Rate;
use crate::state::spec_divisor;

verus! {

/// Beats in one bar: the arpeggiator's grid is the bar divided by the rate.
pub const BEATS_PER_BAR: u64 = 4;

/// Milliseconds between two arpeggiator ticks:
/// `(beats-per-bar × 60000) / (bpm × divisor)`, rounded down.
pub open spec fn spec_tick_interval(bpm: u16, rate: Rate) -> int {
    240000int / (bpm as int * spec_divisor(rate) as int)
}

/// The time to wait between two arpeggiator steps, in milliseconds.
pub fn tick_interval_ms(bpm: u16, rate: &Rate) -> (r: u64)
    requires
        bpm >= 1,
    ensures
        r == spec_tick_interval(bpm, *rate),
{
    let dv = rate.divisor();
    proof {
        assert(1 <= spec_divisor(*rate) <= 32);
        vstd::arithmetic::mul::lemma_mul_upper_bound(bpm as int, 65535, dv as int, 32);
        vstd::arithmetic::mul::lemma_mul_strictly_positive(bpm as int, dv as int);
    }
    let d: u64 = bpm as u64 * dv as u64;
    (BEATS_PER_BAR * 60000) / d
}

/// The note an arpeggiator tick selects: the cursor reduced modulo the
/// number of held notes; none when nothing is held.
pub fn arp_select(active_notes: &Vec<u8>, index: usize) -> (r: Option<u8>)
    ensures
        r == (if active_notes@.len() == 0 {
            None::<u8>
        } else {
            Some(active_notes@[index as int % (active_notes@.len() as int)])
        }),
{
    if active_notes.len() == 0 {
        None
    } else {
        Some(active_notes[index % active_notes.len()])
    }
}

/// The state after a playing tick: only the cursor moves, by one, without
/// modulo — held notes come and go between ticks, so the reduction is
/// reapplied at each selection rather than stored.
pub open spec fn spec_arp_advance(s: GlobalState) -> GlobalState {
    GlobalState {
        perform_params: PerformState {
            arpeggiator: ArpeggiatorState {
                index: (s.perform_params.arpeggiator.index + 1) as usize,
                ..s.perform_params.arpeggiator
            },
            ..s.perform_params
        },
        ..s
    }
}

/// One tick of the arpeggiator loop.
///
/// When the perform mode is Arpeggio and notes are held, select the note at
/// the cursor modulo the held count, advance the cursor, and report the
/// note together with the tempo-derived interval to sleep before the next
/// tick. Otherwise — idle mode, or an empty held set — change nothing and
/// report nothing; the loop then idles briefly and polls again.
pub fn arpeggiator_tick(state: &mut GlobalState) -> (r: Option<(u8, u64)>)
    requires
        old(state).wf(),
        old(state).perform_params.arpeggiator.index < usize::MAX,
    ensures
        final(state).wf(),
        ({
            let held = old(state).active_notes@;
            let idx = old(state).perform_params.arpeggiator.index;
            if old(state).perform == Perform::Arpeggio && held.len() > 0 {
                &&& r == Some(
                    (
                        held[idx as int % (held.len() as int)],
                        spec_tick_interval(
                            old(state).bpm,
                            old(state).perform_params.arpeggiator.rate,
                        ) as u64,
                    ),
                )
                &&& *final(state) == spec_arp_advance(*old(state))
            } else {
                &&& r is None
                &&& *final(state) == *old(state)
            }
        }),
{
    if !(state.perform == Perform::Arpeggio) {
        return None;
    }
    if state.active_notes.len() == 0 {
        return None;
    }
    let idx = state.perform_params.arpeggiator.index;
    let note = state.active_notes[idx % state.active_notes.len()];
    let wait = tick_interval_ms(state.bpm, &state.perform_params.arpeggiator.rate);
    state.perform_params.arpeggiator.index = idx + 1;
    Some((note, wait))
}

} // verus!
