//! SELECT by name (ISO/IEC 7816-4 §11.2.2).
use vstd::prelude::*;

use crate::command::{build, built, BuildError, Capdu};

verus! {

/// SELECT of the application `aid`; without one, of the default application.
pub fn select_by_aid(aid: &[u8]) -> (r: Result<Capdu, BuildError>)
    ensures
        built(r, 0x00, 0xA4, 0x04, 0x00, aid@, true),
{
    build(0x00, 0xA4, 0x04, 0x00, aid, true)
}

} // verus!
