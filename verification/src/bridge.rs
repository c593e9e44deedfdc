//! The frames of a card simulator's bridge.
//!
//! Either side sends a length of four bytes, most significant byte first, and as many
//! bytes of an APDU.
use vstd::prelude::*;

use crate::limits::RAPDU_MAX;
use crate::transport::TransportError;

verus! {

/// The longest content of a frame.
pub const MAX_FRAME: usize = 65535;

/// A length of four bytes.
pub open spec fn length_field(len: nat) -> Seq<u8> {
    seq![
        (len / 0x100_0000 % 0x100) as u8,
        (len / 0x1_0000 % 0x100) as u8,
        (len / 0x100 % 0x100) as u8,
        (len % 0x100) as u8,
    ]
}

/// The value of a length field.
pub open spec fn field_value(field: Seq<u8>) -> nat {
    (field[0] * 0x100_0000 + field[1] * 0x1_0000 + field[2] * 0x100 + field[3]) as nat
}

/// Reading a length field gives back what was written.
pub proof fn law_length_field_round_trips(len: nat)
    requires
        len <= u32::MAX,
    ensures
        field_value(length_field(len)) == len,
{
}

/// The frame of a command, which must not be too long for one.
pub fn frame(capdu: &[u8]) -> (r: Result<Vec<u8>, TransportError>)
    ensures
        match r {
            Ok(f) => capdu@.len() <= MAX_FRAME && f@ == length_field(capdu@.len()) + capdu@,
            Err(e) => capdu@.len() > MAX_FRAME && e == TransportError::ProtocolError,
        },
{
    let n: usize = capdu.len();
    if n > MAX_FRAME {
        return Err(TransportError::ProtocolError);
    }
    let mut f: Vec<u8> = vec![0, 0, (n / 0x100 % 0x100) as u8, (n % 0x100) as u8];
    assert(f@ =~= length_field(capdu@.len()));
    f.extend_from_slice(capdu);
    Ok(f)
}

/// The length of a reply, from the length field in front of it. One that is longer
/// than a response APDU is refused.
pub fn reply_len(field: [u8; 4]) -> (r: Result<usize, TransportError>)
    ensures
        match r {
            Ok(n) => n == field_value(field@) && n <= RAPDU_MAX,
            Err(e) => field_value(field@) > RAPDU_MAX && e == TransportError::ProtocolError,
        },
{
    let n: u32 = field[0] as u32 * 0x100_0000 + field[1] as u32 * 0x1_0000 + field[2] as u32 * 0x100
        + field[3] as u32;
    if n > RAPDU_MAX as u32 {
        return Err(TransportError::ProtocolError);
    }
    Ok(n as usize)
}

} // verus!
