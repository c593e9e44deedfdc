//! Builders of the command APDUs that the library sends.
//!
//! A builder is total: inputs that do not fit a short APDU give
//! [`BuildError::Overflow`]. [`short_apdu`] is the layout that all of them share.
use vstd::prelude::*;

use crate::buffers::{capdu_bytes, capdu_extend, capdu_new, capdu_slice};
use crate::limits::CAPDU_MAX;

pub use crate::buffers::Capdu;

pub mod delete;
pub mod get_data;
pub mod get_status;
pub mod install;
pub mod load;
pub mod put_key;
pub mod rmac_session;
pub mod select;
pub mod set_status;

verus! {

/// Failure of a command builder.
#[derive(Debug, Clone, Copy, PartialEq, Eq, Structural)]
#[non_exhaustive]
pub enum BuildError {
    /// The inputs do not fit a short APDU.
    Overflow,
    /// A key deletion that names neither a key identifier nor a key version.
    EmptyKeyScope,
}

/// A short command: header, `Lc` and data where there is data, and `Le`.
pub open spec fn short_apdu(
    cla: u8,
    ins: u8,
    p1: u8,
    p2: u8,
    data: Seq<u8>,
    le: bool,
) -> Seq<u8> {
    let body = if data.len() == 0 {
        Seq::empty()
    } else {
        seq![data.len() as u8] + data
    };
    let tail = if le {
        seq![0u8]
    } else {
        Seq::empty()
    };
    seq![cla, ins, p1, p2] + body + tail
}

/// A field with its length in one octet in front of it.
pub open spec fn lv(bytes: Seq<u8>) -> Seq<u8> {
    seq![bytes.len() as u8] + bytes
}

/// `r` is the command with this header and data, which is refused exactly when
/// the data does not fit one octet of length.
pub open spec fn built(
    r: Result<Capdu, BuildError>,
    cla: u8,
    ins: u8,
    p1: u8,
    p2: u8,
    data: Seq<u8>,
    le: bool,
) -> bool {
    match r {
        Ok(apdu) => data.len() <= 255 && capdu_bytes(apdu) == short_apdu(
            cla,
            ins,
            p1,
            p2,
            data,
            le,
        ),
        Err(e) => data.len() > 255 && e == BuildError::Overflow,
    }
}

/// Appends `src`, or fails where it does not fit.
pub(crate) fn push(out: &mut Capdu, src: &[u8]) -> (r: Result<(), BuildError>)
    ensures
        r is Ok <==> capdu_bytes(*old(out)).len() + src@.len() <= CAPDU_MAX,
        r is Ok ==> capdu_bytes(*final(out)) == capdu_bytes(*old(out)) + src@,
        r matches Err(e) ==> e == BuildError::Overflow && *final(out) == *old(out),
{
    match capdu_extend(out, src) {
        Ok(()) => Ok(()),
        Err(()) => Err(BuildError::Overflow),
    }
}

/// Appends `bytes` with its length in front.
pub(crate) fn push_lv(out: &mut Capdu, bytes: &[u8]) -> (r: Result<(), BuildError>)
    ensures
        r is Ok <==> bytes@.len() <= 255 && capdu_bytes(*old(out)).len() + 1 + bytes@.len()
            <= CAPDU_MAX,
        r is Ok ==> capdu_bytes(*final(out)) == capdu_bytes(*old(out)) + lv(bytes@),
        r matches Err(e) ==> e == BuildError::Overflow,
{
    if bytes.len() > 255 {
        return Err(BuildError::Overflow);
    }
    let len: u8 = bytes.len() as u8;
    push(out, &[len])?;
    push(out, bytes)?;
    assert(capdu_bytes(*out) =~= capdu_bytes(*old(out)) + lv(bytes@));
    Ok(())
}

/// Assembles a short command.
pub(crate) fn build(cla: u8, ins: u8, p1: u8, p2: u8, data: &[u8], le: bool) -> (r: Result<
    Capdu,
    BuildError,
>)
    ensures
        built(r, cla, ins, p1, p2, data@, le),
{
    let mut apdu: Capdu = capdu_new();
    push(&mut apdu, &[cla, ins, p1, p2])?;
    if data.len() > 0 {
        if data.len() > 255 {
            return Err(BuildError::Overflow);
        }
        let lc: u8 = data.len() as u8;
        push(&mut apdu, &[lc])?;
        push(&mut apdu, data)?;
    }
    if le {
        push(&mut apdu, &[0x00])?;
    }
    assert(capdu_bytes(apdu) =~= short_apdu(cla, ins, p1, p2, data@, le));
    Ok(apdu)
}

/// Assembles a short command around a data field that was built in a buffer.
pub(crate) fn build_from(cla: u8, ins: u8, p1: u8, p2: u8, data: &Capdu, le: bool) -> (r: Result<
    Capdu,
    BuildError,
>)
    ensures
        built(r, cla, ins, p1, p2, capdu_bytes(*data), le),
{
    build(cla, ins, p1, p2, capdu_slice(data), le)
}

/// Every command that a builder returns is a short APDU: at least a header, at
/// most 261 bytes.
pub proof fn law_built_commands_are_short(
    cla: u8,
    ins: u8,
    p1: u8,
    p2: u8,
    data: Seq<u8>,
    le: bool,
)
    requires
        data.len() <= 255,
    ensures
        4 <= short_apdu(cla, ins, p1, p2, data, le).len() <= CAPDU_MAX,
{
}

} // verus!
