//! GET STATUS (GPCS v2.3.1 §11.4).
use vstd::prelude::*;

use crate::buffers::{capdu_bytes, capdu_new};
use crate::command::{build_from, built, lv, push, push_lv, BuildError, Capdu};

verus! {

/// P2: first or all occurrences, in TLV form.
pub const P2_FIRST_TLV: u8 = 0x02;

/// P2: next occurrence, in TLV form; continues after a `63 10` answer.
pub const P2_NEXT_TLV: u8 = 0x03;

/// The data field of GET STATUS: the identifier to match under tag `4F`.
pub open spec fn status_query(aid_qualifier: Seq<u8>) -> Seq<u8> {
    seq![0x4Fu8] + lv(aid_qualifier)
}

/// The first GET STATUS of a scope. An empty qualifier matches everything.
pub fn get_status(p1: u8, aid_qualifier: &[u8]) -> (r: Result<Capdu, BuildError>)
    ensures
        built(r, 0x80, 0xF2, p1, P2_FIRST_TLV, status_query(aid_qualifier@), true),
{
    get_status_p2(p1, P2_FIRST_TLV, aid_qualifier)
}

/// GET STATUS with an explicit P2.
pub fn get_status_p2(p1: u8, p2: u8, aid_qualifier: &[u8]) -> (r: Result<Capdu, BuildError>)
    ensures
        built(r, 0x80, 0xF2, p1, p2, status_query(aid_qualifier@), true),
{
    let mut data: Capdu = capdu_new();
    push(&mut data, &[0x4F])?;
    push_lv(&mut data, aid_qualifier)?;
    assert(capdu_bytes(data) =~= status_query(aid_qualifier@));
    build_from(0x80, 0xF2, p1, p2, &data, true)
}

} // verus!
