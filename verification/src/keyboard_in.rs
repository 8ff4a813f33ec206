//! Applying modifier input that arrives as keyboard key edges.

use vstd::prelude::*;
use crate::modifier::KeyCode;
use crate::modifier::KeyboardMapping;
use crate::modifier::MappingInput;
use crate::modifier::ModifierMapping;
use crate::modifier::ModifierStack;
use crate::modifier::StackModel;
use crate::modifier::spec_update;

verus! {

/// The stack after one key edge: the key is run through the keyboard
/// mapping and the selected modifier — if any — is pressed or released
/// according to the edge; an unmapped key leaves the stack unchanged.
pub open spec fn spec_handle_key(m: StackModel, key: KeyCode, pressed: bool) -> StackModel {
    match KeyboardMapping::spec_modifier(MappingInput::Keycode(key)) {
        Some((modifier, _)) => spec_update(m, modifier, pressed),
        None => m,
    }
}

/// Apply one keyboard key edge to the stack.
pub fn handle_key(stack: &mut ModifierStack, key: KeyCode, pressed: bool)
    ensures
        final(stack)@ == spec_handle_key(old(stack)@, key, pressed),
{
    match KeyboardMapping::get_modifier(MappingInput::Keycode(key)) {
        Some((modifier, _)) => stack.update(modifier, pressed),
        None => (),
    }
}

} // verus!
