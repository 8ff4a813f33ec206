use poorkid::midi_in::ChordStatus;
use poorkid::midi_in::transform_message;
use poorkid::modifier::Extension;
use poorkid::modifier::Modifier;
use poorkid::modifier::ModifierStack;
use poorkid::modifier::Quality;
use poorkid::modifier_handler::handle_modifier_message;
use poorkid::keyboard_in::handle_key;
use poorkid::modifier::KeyCode;

fn major_stack() -> ModifierStack {
    let mut stack = ModifierStack::new();
    stack.update(Modifier::Quality(Quality::Major), true);
    stack
}

#[test]
fn note_on_strums_the_chord() {
    let stack = major_stack();
    let mut status = ChordStatus::new();
    let out = transform_message(&stack, &mut status, &vec![0x90, 60, 100]);
    assert_eq!(out.len(), 3);
    assert_eq!(out[0].bytes, vec![0x90, 60, 100]);
    assert_eq!(out[0].delay_ms, 0);
    assert_eq!(out[1].bytes, vec![0x90, 64, 100]);
    assert_eq!(out[1].delay_ms, 10);
    assert_eq!(out[2].bytes, vec![0x90, 67, 100]);
    assert_eq!(out[2].delay_ms, 20);
}

#[test]
fn note_off_releases_exactly_the_tracked_chord() {
    let stack = major_stack();
    let mut status = ChordStatus::new();
    transform_message(&stack, &mut status, &vec![0x90, 60, 100]);
    let off = transform_message(&stack, &mut status, &vec![0x80, 60, 0]);
    assert_eq!(off.len(), 3);
    assert_eq!(off[0].bytes, vec![0x80, 60, 0]);
    assert_eq!(off[1].bytes, vec![0x80, 64, 0]);
    assert_eq!(off[2].bytes, vec![0x80, 67, 0]);
    assert!(off.iter().all(|m| m.delay_ms == 0));
    // The entry was cleared: a second note-off finds nothing.
    let again = transform_message(&stack, &mut status, &vec![0x80, 60, 0]);
    assert!(again.is_empty());
}

#[test]
fn note_off_uses_companions_from_note_on_time() {
    let mut stack = major_stack();
    let mut status = ChordStatus::new();
    transform_message(&stack, &mut status, &vec![0x90, 60, 100]);
    // Chords do not re-voice while held: a modifier change after the
    // note-on must not change what the note-off releases.
    stack.update(Modifier::Quality(Quality::Major), false);
    stack.update(Modifier::Quality(Quality::Minor), true);
    let off = transform_message(&stack, &mut status, &vec![0x80, 60, 0]);
    assert_eq!(off.len(), 3);
    assert_eq!(off[1].bytes, vec![0x80, 64, 0]);
    assert_eq!(off[2].bytes, vec![0x80, 67, 0]);
}

#[test]
fn note_on_without_modifiers_passes_alone() {
    let stack = ModifierStack::new();
    let mut status = ChordStatus::new();
    let out = transform_message(&stack, &mut status, &vec![0x91, 72, 64]);
    assert_eq!(out.len(), 1);
    assert_eq!(out[0].bytes, vec![0x91, 72, 64]);
    assert_eq!(out[0].delay_ms, 0);
}

#[test]
fn note_off_without_matching_note_on_is_dropped() {
    let stack = major_stack();
    let mut status = ChordStatus::new();
    let out = transform_message(&stack, &mut status, &vec![0x80, 60, 0]);
    assert!(out.is_empty());
}

#[test]
fn velocity_zero_note_on_acts_as_note_off() {
    let stack = major_stack();
    let mut status = ChordStatus::new();
    transform_message(&stack, &mut status, &vec![0x90, 60, 100]);
    let off = transform_message(&stack, &mut status, &vec![0x90, 60, 0]);
    assert_eq!(off.len(), 3);
    // The release is re-encoded canonically as a note-off status byte.
    assert_eq!(off[0].bytes, vec![0x80, 60, 0]);
    assert_eq!(off[1].bytes, vec![0x80, 64, 0]);
    assert_eq!(off[2].bytes, vec![0x80, 67, 0]);
}

#[test]
fn channels_are_tracked_independently() {
    let stack = major_stack();
    let mut status = ChordStatus::new();
    transform_message(&stack, &mut status, &vec![0x90, 60, 100]);
    transform_message(&stack, &mut status, &vec![0x92, 60, 100]);
    // Releasing on channel 2 leaves channel 0's entry in place.
    let off2 = transform_message(&stack, &mut status, &vec![0x82, 60, 0]);
    assert_eq!(off2.len(), 3);
    assert_eq!(off2[0].bytes, vec![0x82, 60, 0]);
    let off0 = transform_message(&stack, &mut status, &vec![0x80, 60, 0]);
    assert_eq!(off0.len(), 3);
    assert_eq!(off0[0].bytes, vec![0x80, 60, 0]);
}

#[test]
fn malformed_bytes_produce_no_output_and_no_state_change() {
    let stack = major_stack();
    let mut status = ChordStatus::new();
    transform_message(&stack, &mut status, &vec![0x90, 60, 100]);
    for bad in [
        vec![],
        vec![0x12, 60, 100],
        vec![0x90, 60],
        vec![0x90, 200, 100],
        vec![0x90, 60, 200],
        vec![0x80],
    ] {
        let out = transform_message(&stack, &mut status, &bad);
        assert!(out.is_empty());
    }
    // The tracked chord survived all of it.
    let off = transform_message(&stack, &mut status, &vec![0x80, 60, 0]);
    assert_eq!(off.len(), 3);
}

#[test]
fn trailing_bytes_after_a_complete_message_are_ignored() {
    let stack = major_stack();
    let mut status = ChordStatus::new();
    let out = transform_message(&stack, &mut status, &vec![0x90, 60, 100, 99]);
    assert_eq!(out.len(), 3);
    assert_eq!(out[0].bytes, vec![0x90, 60, 100]);
}

#[test]
fn other_message_kinds_are_dropped() {
    let stack = major_stack();
    let mut status = ChordStatus::new();
    // Control change, reset, and a system message produce no expansion.
    assert!(transform_message(&stack, &mut status, &vec![0xB0, 7, 127]).is_empty());
    assert!(transform_message(&stack, &mut status, &vec![0xFF]).is_empty());
    assert!(transform_message(&stack, &mut status, &vec![0xF8]).is_empty());
}

#[test]
fn stale_entry_is_overwritten_on_repeated_note_on() {
    let mut stack = major_stack();
    let mut status = ChordStatus::new();
    transform_message(&stack, &mut status, &vec![0x90, 60, 100]);
    stack.update(Modifier::Quality(Quality::Major), false);
    stack.update(Modifier::Quality(Quality::Minor), true);
    transform_message(&stack, &mut status, &vec![0x90, 60, 100]);
    let off = transform_message(&stack, &mut status, &vec![0x80, 60, 0]);
    // The second note-on re-voiced the tracked chord to the minor triad.
    assert_eq!(off.len(), 3);
    assert_eq!(off[1].bytes, vec![0x80, 63, 0]);
    assert_eq!(off[2].bytes, vec![0x80, 67, 0]);
}

#[test]
fn chord_status_insert_lookup_take() {
    let mut status = ChordStatus::new();
    assert_eq!(status.lookup(0, 60), None);
    status.insert(0, 60, &vec![64, 67]);
    assert_eq!(status.lookup(0, 60), Some(vec![64, 67]));
    status.insert(0, 60, &vec![63]);
    assert_eq!(status.lookup(0, 60), Some(vec![63]));
    assert_eq!(status.take(0, 60), Some(vec![63]));
    assert_eq!(status.lookup(0, 60), None);
    assert_eq!(status.take(0, 60), None);
}

#[test]
fn modifier_messages_drive_the_stack() {
    let mut stack = ModifierStack::new();
    handle_modifier_message(&mut stack, &vec![0xB0, 7, 127]);
    assert_eq!(stack.get_notes(60), vec![64, 67]);
    handle_modifier_message(&mut stack, &vec![0xB0, 62, 127]);
    assert_eq!(stack.get_notes(60), vec![64, 67, 70]);
    handle_modifier_message(&mut stack, &vec![0xB0, 7, 0]);
    assert_eq!(stack.get_notes(60), vec![70]);
    // A malformed or unmapped message changes nothing.
    handle_modifier_message(&mut stack, &vec![0x12]);
    handle_modifier_message(&mut stack, &vec![0xB0, 42, 127]);
    assert_eq!(stack.get_notes(60), vec![70]);
}

#[test]
fn key_edges_drive_the_stack() {
    let mut stack = ModifierStack::new();
    handle_key(&mut stack, KeyCode::Numpad8, true);
    assert_eq!(stack.get_notes(60), vec![63, 67]);
    handle_key(&mut stack, KeyCode::NumpadAdd, true);
    assert_eq!(stack.get_notes(60), vec![63, 67, 74]);
    handle_key(&mut stack, KeyCode::Numpad8, false);
    assert_eq!(stack.get_notes(60), vec![74]);
    handle_key(&mut stack, KeyCode::Other, true);
    assert_eq!(stack.get_notes(60), vec![74]);
}

#[test]
fn extension_rides_above_the_octave() {
    let mut stack = ModifierStack::new();
    stack.update(Modifier::Extension(Extension::SharpThirteenth), true);
    let mut status = ChordStatus::new();
    let out = transform_message(&stack, &mut status, &vec![0x90, 60, 80]);
    assert_eq!(out.len(), 2);
    assert_eq!(out[1].bytes, vec![0x90, 82, 80]);
}
