use poorkid::arpeggiator::arp_select;
use poorkid::arpeggiator::arpeggiator_tick;
use poorkid::arpeggiator::tick_interval_ms;
use poorkid::state::ArpeggioDirection;
use poorkid::state::GlobalState;
use poorkid::state::Page;
use poorkid::state::Perform;
use poorkid::state::PerformParam;
use poorkid::state::PerformState;
use poorkid::state::Rate;
use poorkid::state::RotaryControl;
use poorkid::theory::Scale;

#[test]
fn tick_interval_at_120_bpm_eighths_is_250ms() {
    assert_eq!(tick_interval_ms(120, &Rate::Eighth), 250);
}

#[test]
fn tick_interval_other_tempi() {
    assert_eq!(tick_interval_ms(120, &Rate::Quarter), 500);
    assert_eq!(tick_interval_ms(120, &Rate::Sixteenth), 125);
    assert_eq!(tick_interval_ms(100, &Rate::Sixteenth), 150);
    assert_eq!(tick_interval_ms(60, &Rate::Quarter), 1000);
}

#[test]
fn rate_divisors() {
    assert_eq!(Rate::Quarter.divisor(), 4);
    assert_eq!(Rate::Eighth.divisor(), 8);
    assert_eq!(Rate::Twelfth.divisor(), 12);
    assert_eq!(Rate::Sixteenth.divisor(), 16);
    assert_eq!(Rate::TwentyFourth.divisor(), 24);
    assert_eq!(Rate::ThirtySecond.divisor(), 32);
}

#[test]
fn selection_reduces_cursor_modulo_held_count() {
    let notes = vec![60u8, 64, 67];
    assert_eq!(arp_select(&notes, 5), Some(67));
    let fewer = vec![60u8, 64];
    assert_eq!(arp_select(&fewer, 6), Some(60));
    assert_eq!(arp_select(&Vec::new(), 3), None);
}

#[test]
fn tick_plays_and_advances_without_storing_the_modulo() {
    let mut state = GlobalState::new();
    state.perform = Perform::Arpeggio;
    state.active_notes = vec![60, 64, 67];
    state.perform_params.arpeggiator.index = 5;
    // cursor 5 over three notes selects index 5 % 3 = 2.
    assert_eq!(arpeggiator_tick(&mut state), Some((67, 250)));
    assert_eq!(state.perform_params.arpeggiator.index, 6);
    // The set shrinks; the stored cursor is unreduced, so 6 % 2 = 0.
    state.active_notes = vec![60, 64];
    assert_eq!(arpeggiator_tick(&mut state), Some((60, 250)));
    assert_eq!(state.perform_params.arpeggiator.index, 7);
}

#[test]
fn tick_idles_outside_arpeggio_mode() {
    let mut state = GlobalState::new();
    state.active_notes = vec![60, 64, 67];
    state.perform = Perform::Strum;
    assert_eq!(arpeggiator_tick(&mut state), None);
    assert_eq!(state.perform_params.arpeggiator.index, 0);
}

#[test]
fn tick_with_no_held_notes_is_a_noop() {
    let mut state = GlobalState::new();
    state.perform = Perform::Arpeggio;
    assert_eq!(arpeggiator_tick(&mut state), None);
    assert_eq!(state.perform_params.arpeggiator.index, 0);
}

#[test]
fn perform_state_updates_one_parameter_at_a_time() {
    let mut params = PerformState::new();
    assert_eq!(params.spacing, 20);
    params.update(PerformParam::StrumSpacing(35));
    assert_eq!(params.spacing, 35);
    params.update(PerformParam::ArpeggioDirection(ArpeggioDirection::Down));
    assert_eq!(params.arpeggiator.direction, ArpeggioDirection::Down);
    params.update(PerformParam::ArpeggioRate(Rate::Sixteenth));
    assert_eq!(params.arpeggiator.rate, Rate::Sixteenth);
    params.update(PerformParam::NoParam);
    assert_eq!(params.spacing, 35);
    assert_eq!(params.arpeggiator.rate, Rate::Sixteenth);
}

#[test]
fn perform_state_reads_back_by_shape() {
    let mut params = PerformState::new();
    params.update(PerformParam::StrumSpacing(42));
    assert_eq!(params.get_value(PerformParam::StrumSpacing(0)), PerformParam::StrumSpacing(42));
    assert_eq!(
        params.get_value(PerformParam::ArpeggioDirection(ArpeggioDirection::Down)),
        PerformParam::ArpeggioDirection(ArpeggioDirection::Up)
    );
    assert_eq!(
        params.get_value(PerformParam::ArpeggioRate(Rate::Quarter)),
        PerformParam::ArpeggioRate(Rate::Eighth)
    );
    assert_eq!(params.get_value(PerformParam::NoParam), PerformParam::NoParam);
}

#[test]
fn global_state_defaults() {
    let state = GlobalState::new();
    assert_eq!(state.key.root(), 0);
    assert_eq!(state.key.scale, Scale::Ionian);
    assert_eq!(state.bpm, 120);
    assert_eq!(state.perform, Perform::Off);
    assert_eq!(state.page, Page::One);
    assert!(state.active_notes.is_empty());
}

#[test]
fn page_controls() {
    let one = Page::One.get_controls();
    assert_eq!(one[0], RotaryControl::Root(60));
    assert_eq!(one[1], RotaryControl::Scale(Scale::Ionian));
    assert_eq!(one[2], RotaryControl::Bpm(120));
    assert_eq!(one[3], RotaryControl::Perform(Perform::Off));
    let two = Page::Two.get_controls();
    assert_eq!(two[0], RotaryControl::PerformParam(PerformParam::StrumSpacing(20)));
    assert_eq!(
        two[1],
        RotaryControl::PerformParam(PerformParam::ArpeggioDirection(ArpeggioDirection::Up))
    );
    assert_eq!(two[2], RotaryControl::PerformParam(PerformParam::ArpeggioRate(Rate::Eighth)));
    assert_eq!(two[3], RotaryControl::PerformParam(PerformParam::NoParam));
}
