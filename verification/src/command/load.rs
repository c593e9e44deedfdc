//! LOAD (GPCS v2.3.1 §11.6).
use vstd::prelude::*;

use crate::command::{build, built, BuildError, Capdu};

verus! {

/// P1 of a LOAD: `80` on the last block.
pub open spec fn load_p1(last: bool) -> u8 {
    if last {
        0x80
    } else {
        0x00
    }
}

/// One block of a load file; `block_no` counts in P2.
pub fn load_block(block_no: u8, last: bool, chunk: &[u8]) -> (r: Result<Capdu, BuildError>)
    ensures
        built(r, 0x84, 0xE8, load_p1(last), block_no, chunk@, true),
{
    let p1: u8 = if last {
        0x80
    } else {
        0x00
    };
    build(0x84, 0xE8, p1, block_no, chunk, true)
}

} // verus!
