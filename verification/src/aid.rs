//! Application identifiers (ISO/IEC 7816-5).
use vstd::prelude::*;

use crate::buffers::{field_bytes, field_copy, field_from_slice, field_slice, Field};
use crate::error::ScllError;
use crate::limits::AID_MAX;
use crate::util::hex::{hex_quoted, quoted_hex};
use crate::util::text::{tagged, tagged_text, Logged};

verus! {

/// Shortest identifier: a 5-byte RID with an empty PIX.
pub const AID_MIN: usize = 5;

/// An application identifier of 5 to 16 bytes.
#[derive(Debug, PartialEq, Eq, Hash)]
pub struct Aid {
    bytes: Field,
}

impl View for Aid {
    type V = Seq<u8>;

    closed spec fn view(&self) -> Seq<u8> {
        field_bytes(self.bytes)
    }
}

/// A byte string of the length that an identifier must have.
pub open spec fn aid_shaped(bytes: Seq<u8>) -> bool {
    AID_MIN <= bytes.len() <= AID_MAX
}

/// `r` is what reading `bytes` as an identifier gives.
pub open spec fn aid_read(r: Result<Aid, ScllError>, bytes: Seq<u8>) -> bool {
    match r {
        Ok(aid) => aid_shaped(bytes) && aid@ == bytes,
        Err(e) => !aid_shaped(bytes) && e == (ScllError::InvalidAid { len: bytes.len() as usize }),
    }
}

impl Aid {
    /// Every identifier has a legal length.
    #[verifier::type_invariant]
    spec fn inv(self) -> bool {
        aid_shaped(self@)
    }

    /// Builds an identifier; lengths outside 5 to 16 are refused.
    pub fn new(bytes: &[u8]) -> (r: Result<Aid, ScllError>)
        ensures
            aid_read(r, bytes@),
    {
        if bytes.len() < AID_MIN || bytes.len() > AID_MAX {
            return Err(ScllError::InvalidAid { len: bytes.len() });
        }
        match field_from_slice(bytes) {
            Ok(field) => Ok(Aid { bytes: field }),
            Err(_) => Err(ScllError::InvalidAid { len: bytes.len() }),
        }
    }

    /// The identifier's bytes.
    pub fn as_bytes(&self) -> (r: &[u8])
        ensures
            r@ == self@,
            aid_shaped(self@),
    {
        proof {
            use_type_invariant(self);
        }
        field_slice(&self.bytes)
    }
}

impl Clone for Aid {
    fn clone(&self) -> (r: Aid)
        ensures
            r@ == self@,
    {
        proof {
            use_type_invariant(self);
        }
        Aid { bytes: field_copy(&self.bytes) }
    }
}

impl Logged for Aid {
    open spec fn text(&self) -> Seq<char> {
        tagged_text("Aid"@, quoted_hex(self@))
    }

    /// The bytes in hexadecimal: `Aid("A0000001515344")`.
    fn to_text(&self) -> (r: String) {
        tagged("Aid", hex_quoted(self.as_bytes()).as_str())
    }
}

} // verus!
