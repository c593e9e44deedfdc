//! GET DATA (GPCS v2.3.1 §11.3).
use vstd::prelude::*;

use crate::command::{build, built, BuildError, Capdu};

verus! {

/// GET DATA of the object with the two-octet tag `tag_p1p2`.
pub fn get_data(tag_p1p2: u16) -> (r: Result<Capdu, BuildError>)
    ensures
        built(
            r,
            0x80,
            0xCA,
            (tag_p1p2 / 256) as u8,
            (tag_p1p2 % 256) as u8,
            Seq::<u8>::empty(),
            true,
        ),
{
    let p1: u8 = (tag_p1p2 / 256) as u8;
    let p2: u8 = (tag_p1p2 % 256) as u8;
    let none: [u8; 0] = [];
    let r = build(0x80, 0xCA, p1, p2, &none, true);
    assert(none@ =~= Seq::<u8>::empty());
    r
}

} // verus!
