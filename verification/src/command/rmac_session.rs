//! BEGIN and END R-MAC SESSION (GPCS v2.3.1 Appendix E).
use vstd::prelude::*;

use crate::buffers::{capdu_bytes, capdu_new};
use crate::command::{build_from, lv, push, push_lv, short_apdu, BuildError, Capdu};

verus! {

/// P1: each response of the session carries an R-MAC.
const BEGIN_P1_RMAC: u8 = 0x10;

/// P2: end the session and return the accumulated R-MAC.
const END_P2_END_AND_RETURN: u8 = 0x03;

/// P2: return the current R-MAC and go on.
const END_P2_RETURN_ONLY: u8 = 0x01;

/// BEGIN R-MAC SESSION with a challenge of 1 to 24 bytes.
pub fn begin_rmac_session(data: &[u8]) -> (r: Result<Capdu, BuildError>)
    ensures
        match r {
            Ok(apdu) => 1 <= data@.len() <= 24 && capdu_bytes(apdu) == short_apdu(
                0x80,
                0x7A,
                0x10,
                0x00,
                lv(data@),
                true,
            ),
            Err(e) => !(1 <= data@.len() <= 24) && e == BuildError::Overflow,
        },
{
    if data.len() == 0 || data.len() > 24 {
        return Err(BuildError::Overflow);
    }
    let mut field: Capdu = capdu_new();
    push_lv(&mut field, data)?;
    assert(capdu_bytes(field) =~= lv(data@));
    build_from(0x80, 0x7A, BEGIN_P1_RMAC, 0x00, &field, true)
}

/// END R-MAC SESSION; without `end_session` the R-MAC is returned and the
/// session goes on.
pub fn end_rmac_session(end_session: bool) -> (r: Capdu)
    ensures
        capdu_bytes(r) == short_apdu(
            0x80,
            0x78,
            0x00,
            if end_session {
                0x03
            } else {
                0x01
            },
            Seq::<u8>::empty(),
            true,
        ),
{
    let p2: u8 = if end_session {
        END_P2_END_AND_RETURN
    } else {
        END_P2_RETURN_ONLY
    };
    let mut apdu: Capdu = capdu_new();
    let _ = push(&mut apdu, &[0x80, 0x78, 0x00, p2, 0x00]);
    assert(capdu_bytes(apdu) =~= short_apdu(0x80, 0x78, 0x00, p2, Seq::<u8>::empty(), true));
    apdu
}

} // verus!
