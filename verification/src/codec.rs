//! Decoding and encoding of raw MIDI bytes, through the `wmidi` crate.

use vstd::prelude::*;

verus! {

/// A decoded MIDI event, reduced to the vocabulary the engine acts on:
/// channels, notes, velocities and controller numbers are plain values.
/// `Other` covers both malformed byte sequences and message kinds the
/// engine passes over; the two call for the same response — no output.
#[derive(Debug, Clone, Copy, PartialEq, Eq, Structural)]
pub enum MidiEvent {
    /// Channel, note, velocity; the velocity is nonzero.
    NoteOn(u8, u8, u8),
    /// Channel, note, velocity.
    NoteOff(u8, u8, u8),
    /// Channel, controller number, controller value.
    ControlChange(u8, u8, u8),
    /// The reset sentinel.
    Reset,
    /// Anything else, malformed bytes included.
    Other,
}

/// How one raw MIDI message reads, on the cases the engine acts on. A
/// channel voice message is a status byte (`0x8z` note-off, `0x9z` note-on,
/// `0xBz` control change, with channel nibble `z`) followed by two data
/// bytes below `0x80`; a note-on with velocity zero means note-off; a
/// leading `0xFF` means reset; everything else is `Other`.
pub open spec fn spec_classify(b: Seq<u8>) -> MidiEvent {
    if b.len() >= 1 && b[0] == 0xFF {
        MidiEvent::Reset
    } else if b.len() >= 3 && 0x80 <= b[0] < 0x90 && b[1] < 0x80 && b[2] < 0x80 {
        MidiEvent::NoteOff((b[0] - 0x80) as u8, b[1], b[2])
    } else if b.len() >= 3 && 0x90 <= b[0] < 0xA0 && b[1] < 0x80 && b[2] < 0x80 {
        if b[2] == 0 {
            MidiEvent::NoteOff((b[0] - 0x90) as u8, b[1], 0)
        } else {
            MidiEvent::NoteOn((b[0] - 0x90) as u8, b[1], b[2])
        }
    } else if b.len() >= 3 && 0xB0 <= b[0] < 0xC0 && b[1] < 0x80 && b[2] < 0x80 {
        MidiEvent::ControlChange((b[0] - 0xB0) as u8, b[1], b[2])
    } else {
        MidiEvent::Other
    }
}

/// The channel, note and value fields of a classified event are in MIDI
/// range, and a note-on's velocity is nonzero.
pub proof fn lemma_classify_ranges(b: Seq<u8>)
    ensures
        match spec_classify(b) {
            MidiEvent::NoteOn(c, n, v) => c < 16 && n < 128 && 0 < v < 128,
            MidiEvent::NoteOff(c, n, v) => c < 16 && n < 128 && v < 128,
            MidiEvent::ControlChange(c, f, v) => c < 16 && f < 128 && v < 128,
            _ => true,
        },
{
}

/// Relies on `wmidi::MidiMessage::from_bytes`: it parses exactly the
/// grammar that `spec_classify` states — a status byte then two data bytes
/// below `0x80` for the channel voice messages, velocity-zero note-ons
/// returned as note-offs, `0xFF` as reset — and fails on anything the
/// grammar rejects, which lands in `Other` alongside the message kinds the
/// engine passes over.
#[verifier::external_body]
pub fn decode_message(bytes: &Vec<u8>) -> (r: MidiEvent)
    ensures
        r == spec_classify(bytes@),
{
    match wmidi::MidiMessage::from_bytes(bytes.as_slice()) {
        Ok(wmidi::MidiMessage::NoteOn(c, n, v)) => MidiEvent::NoteOn(c.index(), u8::from(n), u8::from(v)),
        Ok(wmidi::MidiMessage::NoteOff(c, n, v)) => MidiEvent::NoteOff(c.index(), u8::from(n), u8::from(v)),
        Ok(wmidi::MidiMessage::ControlChange(c, f, v)) => MidiEvent::ControlChange(c.index(), u8::from(f.0), u8::from(v)),
        Ok(wmidi::MidiMessage::Reset) => MidiEvent::Reset,
        _ => MidiEvent::Other,
    }
}

/// The wire bytes of a note event: the status byte carrying the channel,
/// then the note and velocity bytes.
pub open spec fn spec_encode(e: MidiEvent) -> Seq<u8> {
    match e {
        MidiEvent::NoteOn(c, n, v) => seq![(0x90 + c) as u8, n, v],
        MidiEvent::NoteOff(c, n, v) => seq![(0x80 + c) as u8, n, v],
        _ => Seq::empty(),
    }
}

/// Whether `encode_message` can put the event on the wire: a note event
/// whose fields are in MIDI range.
pub open spec fn encodable(e: MidiEvent) -> bool {
    match e {
        MidiEvent::NoteOn(c, n, v) => c < 16 && n < 128 && v < 128,
        MidiEvent::NoteOff(c, n, v) => c < 16 && n < 128 && v < 128,
        _ => false,
    }
}

/// Relies on `wmidi::MidiMessage::to_vec`: a note-on or note-off is written
/// as its status byte followed by its note and velocity bytes.
#[verifier::external_body]
pub fn encode_message(e: &MidiEvent) -> (r: Vec<u8>)
    requires
        encodable(*e),
    ensures
        r@ == spec_encode(*e),
{
    let msg = match e {
        MidiEvent::NoteOn(c, n, v) => wmidi::MidiMessage::NoteOn(
            wmidi::Channel::from_index(*c).unwrap(),
            wmidi::Note::from_u8_lossy(*n),
            wmidi::U7::from_u8_lossy(*v),
        ),
        MidiEvent::NoteOff(c, n, v) => wmidi::MidiMessage::NoteOff(
            wmidi::Channel::from_index(*c).unwrap(),
            wmidi::Note::from_u8_lossy(*n),
            wmidi::U7::from_u8_lossy(*v),
        ),
        _ => return Vec::new(),
    };
    msg.to_vec()
}

} // verus!
