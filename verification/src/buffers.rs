//! The fixed-capacity byte buffers of the library.
//!
//! Four capacities of [`heapless::Vec`] carry bytes across the library's
//! interfaces: command APDUs, response APDUs, short fields (identifiers,
//! challenges, cryptograms) and encrypted key blocks. For each of them a spec
//! function names the bytes that the buffer holds; the functions below make the
//! calls into `heapless`.
use vstd::prelude::*;

use crate::limits::{CAPDU_MAX, ENC_KEY_BLOCK_MAX, RAPDU_MAX, SCP03_S16_MAX};

verus! {

/// `heapless::Vec`: a vector of at most `N` items, stored inline.
#[verifier::external_type_specification]
#[verifier::external_body]
#[verifier::reject_recursive_types(T)]
pub struct ExHeaplessVec<T, const N: usize>(heapless::Vec<T, N>);

/// A short command APDU.
pub type Capdu = heapless::Vec<u8, CAPDU_MAX>;

/// A short response APDU, or its data field.
pub type Rapdu = heapless::Vec<u8, RAPDU_MAX>;

/// A field of at most 16 bytes: an identifier, a challenge or a cryptogram.
pub type Field = heapless::Vec<u8, SCP03_S16_MAX>;

/// An encrypted key block.
pub type EncKeyBlock = heapless::Vec<u8, ENC_KEY_BLOCK_MAX>;

/// The bytes of a command APDU.
pub uninterp spec fn capdu_bytes(v: heapless::Vec<u8, CAPDU_MAX>) -> Seq<u8>;

/// The bytes of a response APDU.
pub uninterp spec fn rapdu_bytes(v: heapless::Vec<u8, RAPDU_MAX>) -> Seq<u8>;

/// The bytes of a short field.
pub uninterp spec fn field_bytes(v: heapless::Vec<u8, SCP03_S16_MAX>) -> Seq<u8>;

/// The bytes of an encrypted key block.
pub uninterp spec fn block_bytes(v: heapless::Vec<u8, ENC_KEY_BLOCK_MAX>) -> Seq<u8>;

/// `heapless::Vec::new`: an empty buffer.
#[verifier::external_body]
pub(crate) fn capdu_new() -> (r: Capdu)
    ensures
        capdu_bytes(r) == Seq::<u8>::empty(),
{
    heapless::Vec::new()
}

/// `heapless::Vec::extend_from_slice`: appends `src` when it fits, and otherwise
/// leaves the buffer as it was and fails.
#[verifier::external_body]
pub(crate) fn capdu_extend(v: &mut Capdu, src: &[u8]) -> (r: Result<(), ()>)
    ensures
        r is Ok <==> capdu_bytes(*old(v)).len() + src@.len() <= CAPDU_MAX,
        r is Ok ==> capdu_bytes(*final(v)) == capdu_bytes(*old(v)) + src@,
        r is Err ==> *final(v) == *old(v),
{
    v.extend_from_slice(src)
}

/// `heapless::Vec::as_slice`: the bytes of the buffer, never more than its
/// capacity.
#[verifier::external_body]
pub(crate) fn capdu_slice(v: &Capdu) -> (r: &[u8])
    ensures
        r@ == capdu_bytes(*v),
        r@.len() <= CAPDU_MAX,
{
    v.as_slice()
}

/// `heapless::Vec::from_slice`: a buffer that holds `src`, which must fit.
#[verifier::external_body]
pub(crate) fn rapdu_from_slice(src: &[u8]) -> (r: Result<Rapdu, ()>)
    ensures
        r is Ok <==> src@.len() <= RAPDU_MAX,
        r matches Ok(v) ==> rapdu_bytes(v) == src@,
{
    heapless::Vec::from_slice(src)
}

/// `heapless::Vec::as_slice`: the bytes of the buffer, never more than its
/// capacity.
#[verifier::external_body]
pub(crate) fn rapdu_slice(v: &Rapdu) -> (r: &[u8])
    ensures
        r@ == rapdu_bytes(*v),
        r@.len() <= RAPDU_MAX,
{
    v.as_slice()
}

/// `heapless::Vec::from_slice`: a buffer that holds `src`, which must fit.
#[verifier::external_body]
pub(crate) fn field_from_slice(src: &[u8]) -> (r: Result<Field, ()>)
    ensures
        r is Ok <==> src@.len() <= SCP03_S16_MAX,
        r matches Ok(v) ==> field_bytes(v) == src@,
{
    heapless::Vec::from_slice(src)
}

/// `heapless::Vec::as_slice`: the bytes of the buffer, never more than its
/// capacity.
#[verifier::external_body]
pub(crate) fn field_slice(v: &Field) -> (r: &[u8])
    ensures
        r@ == field_bytes(*v),
        r@.len() <= SCP03_S16_MAX,
{
    v.as_slice()
}

/// A buffer with the same bytes.
pub(crate) fn field_copy(v: &Field) -> (r: Field)
    ensures
        field_bytes(r) == field_bytes(*v),
{
    match field_from_slice(field_slice(v)) {
        Ok(copy) => copy,
        Err(_) => vstd::pervasive::unreached(),
    }
}

/// `heapless::Vec::from_slice`: a buffer that holds `src`, which must fit.
#[verifier::external_body]
pub(crate) fn block_from_slice(src: &[u8]) -> (r: Result<EncKeyBlock, ()>)
    ensures
        r is Ok <==> src@.len() <= ENC_KEY_BLOCK_MAX,
        r matches Ok(v) ==> block_bytes(v) == src@,
{
    heapless::Vec::from_slice(src)
}

/// `heapless::Vec::as_slice`: the bytes of the buffer, never more than its
/// capacity.
#[verifier::external_body]
pub(crate) fn block_slice(v: &EncKeyBlock) -> (r: &[u8])
    ensures
        r@ == block_bytes(*v),
        r@.len() <= ENC_KEY_BLOCK_MAX,
{
    v.as_slice()
}

} // verus!
