//! Applying modifier input that arrives as raw MIDI control-change
//! messages.

use vstd::prelude::*;
use crate::codec::decode_message;
use crate::codec::spec_classify;
use crate::modifier::MappingInput;
use crate::modifier::ModifierMapping;
use crate::modifier::ModifierStack;
use crate::modifier::OPXYMapping;
use crate::modifier::StackModel;
use crate::modifier::spec_update;

verus! {

/// The stack after one raw modifier message: the message is decoded, run
/// through the OP-XY control-change mapping, and the selected modifier —
/// if any — is pressed or released; anything else, malformed bytes
/// included, leaves the stack unchanged.
pub open spec fn spec_handle_modifier(m: StackModel, bytes: Seq<u8>) -> StackModel {
    match OPXYMapping::spec_modifier(MappingInput::MidiMessage(spec_classify(bytes))) {
        Some((modifier, pressed)) => spec_update(m, modifier, pressed),
        None => m,
    }
}

/// Apply one raw modifier message to the stack.
pub fn handle_modifier_message(stack: &mut ModifierStack, message: &Vec<u8>)
    ensures
        final(stack)@ == spec_handle_modifier(old(stack)@, message@),
{
    let event = decode_message(message);
    match OPXYMapping::get_modifier(MappingInput::MidiMessage(event)) {
        Some((modifier, pressed)) => stack.update(modifier, pressed),
        None => (),
    }
}

} // verus!
