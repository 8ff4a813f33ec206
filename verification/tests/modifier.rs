use poorkid::codec::MidiEvent;
use poorkid::modifier::Extension;
use poorkid::modifier::Inversion;
use poorkid::modifier::KeyCode;
use poorkid::modifier::KeyboardMapping;
use poorkid::modifier::MappingInput;
use poorkid::modifier::Modifier;
use poorkid::modifier::ModifierMapping;
use poorkid::modifier::ModifierStack;
use poorkid::modifier::OPXYMapping;
use poorkid::modifier::Quality;

#[test]
fn quality_triads_exact() {
    assert_eq!(Quality::Diminished.get_triad().third, 3);
    assert_eq!(Quality::Diminished.get_triad().fifth, 6);
    assert_eq!(Quality::Minor.get_triad().third, 3);
    assert_eq!(Quality::Minor.get_triad().fifth, 7);
    assert_eq!(Quality::Major.get_triad().third, 4);
    assert_eq!(Quality::Major.get_triad().fifth, 7);
    assert_eq!(Quality::Augmented.get_triad().third, 4);
    assert_eq!(Quality::Augmented.get_triad().fifth, 8);
    assert_eq!(Quality::Sus2.get_triad().third, 2);
    assert_eq!(Quality::Sus4.get_triad().third, 5);
}

#[test]
fn extension_semitones_exact() {
    assert_eq!(Extension::FlatSixth.get_semitones(), 8);
    assert_eq!(Extension::Sixth.get_semitones(), 9);
    assert_eq!(Extension::MinorSeventh.get_semitones(), 10);
    assert_eq!(Extension::MajorSeventh.get_semitones(), 11);
    assert_eq!(Extension::Ninth.get_semitones(), 14);
    assert_eq!(Extension::SharpThirteenth.get_semitones(), 22);
}

#[test]
fn companions_major_chord() {
    let mut stack = ModifierStack::new();
    stack.update(Modifier::Quality(Quality::Major), true);
    assert_eq!(stack.get_notes(60), vec![64, 67]);
}

#[test]
fn companions_quality_and_extension() {
    let mut stack = ModifierStack::new();
    stack.update(Modifier::Quality(Quality::Minor), true);
    stack.update(Modifier::Extension(Extension::MinorSeventh), true);
    assert_eq!(stack.get_notes(60), vec![63, 67, 70]);
}

#[test]
fn companions_extension_only() {
    let mut stack = ModifierStack::new();
    stack.update(Modifier::Extension(Extension::Ninth), true);
    assert_eq!(stack.get_notes(60), vec![74]);
}

#[test]
fn companions_empty_without_modifiers() {
    let stack = ModifierStack::new();
    assert_eq!(stack.get_notes(60), Vec::<u8>::new());
}

#[test]
fn companions_out_of_range_steps_are_omitted() {
    let mut stack = ModifierStack::new();
    stack.update(Modifier::Quality(Quality::Major), true);
    // 121 + 4 = 125 sounds; 121 + 7 = 128 leaves the range and is dropped.
    assert_eq!(stack.get_notes(121), vec![125]);
    assert_eq!(stack.get_notes(125), Vec::<u8>::new());
}

#[test]
fn pressing_twice_is_idempotent() {
    let mut once = ModifierStack::new();
    once.update(Modifier::Quality(Quality::Major), true);
    let mut twice = ModifierStack::new();
    twice.update(Modifier::Quality(Quality::Major), true);
    twice.update(Modifier::Quality(Quality::Major), true);
    assert_eq!(once.get_notes(60), twice.get_notes(60));
    // One release clears it: the second press left no duplicate behind.
    twice.update(Modifier::Quality(Quality::Major), false);
    assert_eq!(twice.get_notes(60), Vec::<u8>::new());
}

#[test]
fn releasing_never_pressed_is_a_noop() {
    let mut stack = ModifierStack::new();
    stack.update(Modifier::Quality(Quality::Major), true);
    stack.update(Modifier::Quality(Quality::Minor), false);
    stack.update(Modifier::Extension(Extension::Ninth), false);
    assert_eq!(stack.get_notes(60), vec![64, 67]);
}

#[test]
fn last_pressed_wins_and_reverts() {
    let mut stack = ModifierStack::new();
    stack.update(Modifier::Quality(Quality::Minor), true);
    stack.update(Modifier::Quality(Quality::Major), true);
    // Major was pressed last, so it is active.
    assert_eq!(stack.get_notes(60), vec![64, 67]);
    stack.update(Modifier::Quality(Quality::Major), false);
    // Releasing Major reverts the active quality to Minor.
    assert_eq!(stack.get_notes(60), vec![63, 67]);
}

#[test]
fn chord_names() {
    let mut stack = ModifierStack::new();
    assert_eq!(stack.name(), "");
    stack.update(Modifier::Quality(Quality::Major), true);
    assert_eq!(stack.name(), "maj");
    stack.update(Modifier::Extension(Extension::MinorSeventh), true);
    assert_eq!(stack.name(), "maj7");
    stack.update(Modifier::Inversion(Inversion::First), true);
    assert_eq!(stack.name(), "maj7/1");
    stack.update(Modifier::Inversion(Inversion::Root), true);
    assert_eq!(stack.name(), "maj7");
}

#[test]
fn keyboard_mapping_numpad_rows() {
    assert_eq!(
        KeyboardMapping::get_modifier(MappingInput::Keycode(KeyCode::Numpad9)),
        Some((Modifier::Quality(Quality::Major), true))
    );
    assert_eq!(
        KeyboardMapping::get_modifier(MappingInput::Keycode(KeyCode::Numpad5)),
        Some((Modifier::Extension(Extension::MinorSeventh), true))
    );
    assert_eq!(
        KeyboardMapping::get_modifier(MappingInput::Keycode(KeyCode::Numpad2)),
        Some((Modifier::Inversion(Inversion::First), true))
    );
    assert_eq!(KeyboardMapping::get_modifier(MappingInput::Keycode(KeyCode::Other)), None);
}

#[test]
fn opxy_mapping_control_changes() {
    assert_eq!(
        OPXYMapping::get_modifier(MappingInput::MidiMessage(MidiEvent::ControlChange(0, 7, 127))),
        Some((Modifier::Quality(Quality::Major), true))
    );
    assert_eq!(
        OPXYMapping::get_modifier(MappingInput::MidiMessage(MidiEvent::ControlChange(3, 8, 0))),
        Some((Modifier::Quality(Quality::Minor), false))
    );
    assert_eq!(
        OPXYMapping::get_modifier(MappingInput::MidiMessage(MidiEvent::ControlChange(0, 64, 1))),
        Some((Modifier::Extension(Extension::Ninth), true))
    );
    assert_eq!(
        OPXYMapping::get_modifier(MappingInput::MidiMessage(MidiEvent::ControlChange(0, 42, 127))),
        None
    );
    assert_eq!(
        OPXYMapping::get_modifier(MappingInput::MidiMessage(MidiEvent::NoteOn(0, 60, 100))),
        None
    );
}
