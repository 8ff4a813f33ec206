//! Choosing the MIDI input port from the names the transport reports.

use vstd::prelude::*;

verus! {

/// Whether a port name is one of the preferred controller names.
pub open spec fn spec_preferred(name: Seq<char>) -> bool {
    name == "OP-XY"@ || name == "OP-XY Bluetooth"@
}

/// The first position at or after `i` holding a preferred name; the list
/// length if there is none.
pub open spec fn preferred_from(names: Seq<String>, i: int) -> int
    decreases names.len() - i,
{
    if i < 0 || i >= names.len() {
        names.len() as int
    } else if spec_preferred(names[i]@) {
        i
    } else {
        preferred_from(names, i + 1)
    }
}

/// Choose the input port: the first whose name is preferred, else the
/// first port of any name, else none when no port exists.
pub fn pick_port(names: &Vec<String>) -> (r: Option<usize>)
    ensures
        ({
            let k = preferred_from(names@, 0);
            if k < names@.len() {
                r == Some(k as usize)
            } else if names@.len() > 0 {
                r == Some(0usize)
            } else {
                r is None
            }
        }),
{
    let opxy: String = "OP-XY".to_owned();
    let opxy_bt: String = "OP-XY Bluetooth".to_owned();
    let mut i: usize = 0;
    while i < names.len()
        invariant
            i <= names@.len(),
            opxy@ == "OP-XY"@,
            opxy_bt@ == "OP-XY Bluetooth"@,
            preferred_from(names@, 0) == preferred_from(names@, i as int),
        decreases names@.len() - i,
    {
        let hit = names[i] == opxy || names[i] == opxy_bt;
        if hit {
            proof {
                assert(spec_preferred(names@[i as int]@));
                assert(preferred_from(names@, i as int) == i as int);
            }
            return Some(i);
        }
        proof {
            assert(!spec_preferred(names@[i as int]@));
            assert(preferred_from(names@, i as int) == preferred_from(names@, i as int + 1));
        }
        i += 1;
    }
    if names.len() > 0 {
        Some(0)
    } else {
        None
    }
}

} // verus!
