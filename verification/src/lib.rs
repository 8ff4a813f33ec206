//! A live MIDI chord engine.
//!
//! Incoming note events are expanded into chords according to the chord
//! modifiers currently held by the player, tracked so that the matching
//! note-off releases exactly the notes that were sounded, and optionally
//! swept one note at a time by a tempo-synchronised arpeggiator.
//!
//! Pitches are MIDI note numbers in `[0, 127]`, channels are `[0, 15]`,
//! and velocities are `[0, 127]` throughout.

pub mod arpeggiator;
pub mod codec;
pub mod keyboard_in;
pub mod midi;
pub mod midi_in;
pub mod modifier;
pub mod modifier_handler;
pub mod state;
pub mod theory;
