//! SET STATUS (GPCS v2.3.1 §11.10).
use vstd::prelude::*;

use crate::command::{build, built, BuildError, Capdu};

verus! {

/// SET STATUS of the card: `p2_state` is the new life cycle byte. The command
/// has no `Le`.
pub fn set_card_status(p2_state: u8, isd_aid: &[u8]) -> (r: Result<Capdu, BuildError>)
    ensures
        built(r, 0x84, 0xF0, 0x80, p2_state, isd_aid@, false),
{
    build(0x84, 0xF0, 0x80, p2_state, isd_aid, false)
}

} // verus!
