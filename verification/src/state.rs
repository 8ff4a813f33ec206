//! Shared engine state: the key, tempo, perform mode and its parameters,
//! the modifier stacks and the currently held notes.

use vstd::prelude::*;
use crate::modifier::ModifierStack;
use crate::theory::Key;
use crate::theory::Scale;

verus! {

/// The perform mode applied to incoming notes.
#[derive(Debug, Clone, Copy, PartialEq, Eq, Structural)]
pub enum Perform {
    Off,
    Strum,
    Strum2Octave,
    Arpeggio,
    Arpeggio2Octave,
}

/// The sweep order of the arpeggiator.
#[derive(Debug, Clone, Copy, PartialEq, Eq, Structural)]
pub enum ArpeggioDirection {
    Up,
    Down,
    UpDown,
}

/// The beat subdivision the arpeggiator steps at.
#[derive(Debug, Clone, Copy, PartialEq, Eq, Structural)]
pub enum Rate {
    Quarter,
    Eighth,
    Twelfth,
    Sixteenth,
    TwentyFourth,
    ThirtySecond,
}

/// The number of arpeggiator steps one bar is divided into at each rate.
pub open spec fn spec_divisor(r: Rate) -> u8 {
    match r {
        Rate::Quarter => 4,
        Rate::Eighth => 8,
        Rate::Twelfth => 12,
        Rate::Sixteenth => 16,
        Rate::TwentyFourth => 24,
        Rate::ThirtySecond => 32,
    }
}

impl Rate {
    /// How many steps this rate divides one bar into.
    pub fn divisor(&self) -> (r: u8)
        ensures
            r == spec_divisor(*self),
    {
        match self {
            Rate::Quarter => 4,
            Rate::Eighth => 8,
            Rate::Twelfth => 12,
            Rate::Sixteenth => 16,
            Rate::TwentyFourth => 24,
            Rate::ThirtySecond => 32,
        }
    }
}

/// The arpeggiator's own record: sweep direction, step rate, and the
/// cursor into the held-note set.
#[derive(Debug, Clone, Copy, PartialEq, Eq, Structural)]
pub struct ArpeggiatorState {
    pub direction: ArpeggioDirection,
    pub rate: Rate,
    pub index: usize,
}

impl ArpeggiatorState {
    /// The defaults: sweeping up at eighth notes, cursor at the start.
    pub fn new() -> (r: ArpeggiatorState)
        ensures
            r.direction == ArpeggioDirection::Up,
            r.rate == Rate::Eighth,
            r.index == 0,
    {
        ArpeggiatorState { direction: ArpeggioDirection::Up, rate: Rate::Eighth, index: 0 }
    }
}

/// A perform-mode parameter, carrying its value.
#[derive(Debug, Clone, Copy, PartialEq, Eq, Structural)]
pub enum PerformParam {
    NoParam,
    StrumSpacing(u8),
    ArpeggioDirection(ArpeggioDirection),
    ArpeggioRate(Rate),
}

/// The parameters of the perform modes: the strum spacing and the
/// arpeggiator record.
#[derive(Debug, Clone, Copy, PartialEq, Eq, Structural)]
pub struct PerformState {
    pub spacing: u8,
    pub arpeggiator: ArpeggiatorState,
}

/// A perform state with one parameter set to the value `param` carries.
pub open spec fn spec_perform_update(s: PerformState, param: PerformParam) -> PerformState {
    match param {
        PerformParam::StrumSpacing(value) => (PerformState { spacing: value, ..s }),
        PerformParam::ArpeggioDirection(dir) => (PerformState {
            arpeggiator: ArpeggiatorState { direction: dir, ..s.arpeggiator },
            ..s
        }),
        PerformParam::ArpeggioRate(rate) => (PerformState {
            arpeggiator: ArpeggiatorState { rate: rate, ..s.arpeggiator },
            ..s
        }),
        PerformParam::NoParam => s,
    }
}

/// The parameter of `s` selected by the shape of `param_type`, carrying
/// its current value.
pub open spec fn spec_perform_value(s: PerformState, param_type: PerformParam) -> PerformParam {
    match param_type {
        PerformParam::StrumSpacing(_) => PerformParam::StrumSpacing(s.spacing),
        PerformParam::ArpeggioDirection(_) => PerformParam::ArpeggioDirection(
            s.arpeggiator.direction,
        ),
        PerformParam::ArpeggioRate(_) => PerformParam::ArpeggioRate(s.arpeggiator.rate),
        PerformParam::NoParam => PerformParam::NoParam,
    }
}

impl PerformState {
    /// The defaults: 20 ms strum spacing and a fresh arpeggiator record.
    pub fn new() -> (r: PerformState)
        ensures
            r.spacing == 20,
            r.arpeggiator.direction == ArpeggioDirection::Up,
            r.arpeggiator.rate == Rate::Eighth,
            r.arpeggiator.index == 0,
    {
        PerformState { spacing: 20, arpeggiator: ArpeggiatorState::new() }
    }

    /// Set the parameter selected by `param` to the value it carries.
    pub fn update(&mut self, param: PerformParam)
        ensures
            *final(self) == spec_perform_update(*old(self), param),
    {
        match param {
            PerformParam::StrumSpacing(value) => self.spacing = value,
            PerformParam::ArpeggioDirection(dir) => self.arpeggiator.direction = dir,
            PerformParam::ArpeggioRate(rate) => self.arpeggiator.rate = rate,
            PerformParam::NoParam => (),
        }
    }

    /// Read the parameter selected by the shape of `param_type`.
    pub fn get_value(&self, param_type: PerformParam) -> (r: PerformParam)
        ensures
            r == spec_perform_value(*self, param_type),
    {
        match param_type {
            PerformParam::StrumSpacing(_) => PerformParam::StrumSpacing(self.spacing),
            PerformParam::ArpeggioDirection(_) => PerformParam::ArpeggioDirection(
                self.arpeggiator.direction,
            ),
            PerformParam::ArpeggioRate(_) => PerformParam::ArpeggioRate(self.arpeggiator.rate),
            PerformParam::NoParam => PerformParam::NoParam,
        }
    }
}

/// A page of the rotary control surface.
#[derive(Debug, Clone, Copy, PartialEq, Eq, Structural)]
pub enum Page {
    One,
    Two,
}

/// What one rotary control is assigned to, with a default value.
#[derive(Debug, Clone, Copy, PartialEq, Eq, Structural)]
pub enum RotaryControl {
    Root(u8),
    Scale(Scale),
    Bpm(u16),
    Perform(Perform),
    PerformParam(PerformParam),
}

impl Page {
    /// The four rotary assignments of this page, with their defaults.
    pub fn get_controls(&self) -> (r: [RotaryControl; 4])
        ensures
            *self == Page::One ==> r@ == seq![
                RotaryControl::Root(60),
                RotaryControl::Scale(Scale::Ionian),
                RotaryControl::Bpm(120),
                RotaryControl::Perform(Perform::Off),
            ],
            *self == Page::Two ==> r@ == seq![
                RotaryControl::PerformParam(PerformParam::StrumSpacing(20)),
                RotaryControl::PerformParam(PerformParam::ArpeggioDirection(ArpeggioDirection::Up)),
                RotaryControl::PerformParam(PerformParam::ArpeggioRate(Rate::Eighth)),
                RotaryControl::PerformParam(PerformParam::NoParam),
            ],
    {
        match self {
            Page::One => {
                let r = [
                    RotaryControl::Root(60),
                    RotaryControl::Scale(Scale::Ionian),
                    RotaryControl::Bpm(120),
                    RotaryControl::Perform(Perform::Off),
                ];
                proof {
                    assert(r@ =~= seq![
                        RotaryControl::Root(60),
                        RotaryControl::Scale(Scale::Ionian),
                        RotaryControl::Bpm(120),
                        RotaryControl::Perform(Perform::Off),
                    ]);
                }
                r
            },
            Page::Two => {
                let r = [
                    RotaryControl::PerformParam(PerformParam::StrumSpacing(20)),
                    RotaryControl::PerformParam(
                        PerformParam::ArpeggioDirection(ArpeggioDirection::Up),
                    ),
                    RotaryControl::PerformParam(PerformParam::ArpeggioRate(Rate::Eighth)),
                    RotaryControl::PerformParam(PerformParam::NoParam),
                ];
                proof {
                    assert(r@ =~= seq![
                        RotaryControl::PerformParam(PerformParam::StrumSpacing(20)),
                        RotaryControl::PerformParam(
                            PerformParam::ArpeggioDirection(ArpeggioDirection::Up),
                        ),
                        RotaryControl::PerformParam(PerformParam::ArpeggioRate(Rate::Eighth)),
                        RotaryControl::PerformParam(PerformParam::NoParam),
                    ]);
                }
                r
            },
        }
    }
}

/// The whole engine state shared by the pipeline and the sequencer.
#[derive(Debug, Clone)]
pub struct GlobalState {
    pub key: Key,
    pub bpm: u16,
    pub perform: Perform,
    pub perform_params: PerformState,
    pub modifier_state: ModifierStack,
    pub active_notes: Vec<u8>,
    pub page: Page,
}

impl GlobalState {
    /// The tempo is a live one: at least one beat per minute.
    pub open spec fn wf(self) -> bool {
        self.bpm >= 1
    }

    /// The state a session starts from: C major at 120 beats per minute,
    /// no perform mode, nothing held.
    pub fn new() -> (r: GlobalState)
        ensures
            r.wf(),
            r.key.root == 0,
            r.key.scale == Scale::Ionian,
            r.bpm == 120,
            r.perform == Perform::Off,
            r.perform_params.spacing == 20,
            r.perform_params.arpeggiator.direction == ArpeggioDirection::Up,
            r.perform_params.arpeggiator.rate == Rate::Eighth,
            r.perform_params.arpeggiator.index == 0,
            r.modifier_state@.qualities.len() == 0,
            r.modifier_state@.extensions.len() == 0,
            r.modifier_state@.inversions.len() == 0,
            r.active_notes@.len() == 0,
            r.page == Page::One,
    {
        GlobalState {
            key: Key::new(60, Scale::Ionian),
            bpm: 120,
            perform: Perform::Off,
            perform_params: PerformState::new(),
            modifier_state: ModifierStack::new(),
            active_notes: Vec::new(),
            page: Page::One,
        }
    }
}

} // verus!
