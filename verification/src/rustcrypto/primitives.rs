//! The cipher crates behind the backend: `aes`, `des`, `cbc` and `cmac`.
//!
//! Each function here makes one call into them. What a cipher computes is named
//! and not described; the names are what the contracts of the backend are stated
//! over.
use aes::cipher::block_padding::NoPadding;
use aes::cipher::{BlockDecryptMut, BlockEncryptMut, KeyIvInit};
use cmac::Mac;
use vstd::prelude::*;

verus! {

/// Why a cipher call was refused.
#[derive(Debug, Clone, Copy, PartialEq, Eq, Structural)]
pub enum CipherFault {
    /// The key or the initial value has not the cipher's length.
    Key,
    /// The data are not whole blocks, or not all there.
    Data,
}

/// The first `n` bytes.
pub open spec fn front(s: Seq<u8>, n: usize) -> Seq<u8> {
    s.take(n as int)
}

/// The first `n` bytes, as a sequence of that length. What a cipher makes of data is as
/// long as the data.
pub open spec fn sized(s: Seq<u8>, n: nat) -> Seq<u8> {
    Seq::new(n, |i: int| s[i])
}

/// `s` with its beginning overwritten.
pub open spec fn with_front(s: Seq<u8>, beginning: Seq<u8>) -> Seq<u8> {
    beginning + s.skip(beginning.len() as int)
}

/// The AES-128 CMAC tag of `data` under `key`.
pub uninterp spec fn cmac_aes128(key: Seq<u8>, data: Seq<u8>) -> Seq<u8>;

/// `cmac::Cmac::<aes::Aes128>`: `new_from_slice`, `update` and `finalize` in one.
/// A key of another length than 16 bytes is refused; the tag of any data is
/// [`cmac_aes128`].
#[verifier::external_body]
pub(crate) fn aes128_cmac(key: &[u8], data: &[u8]) -> (r: Result<[u8; 16], CipherFault>)
    ensures
        r is Ok <==> key@.len() == 16,
        r matches Ok(tag) ==> tag@ == cmac_aes128(key@, data@),
        r matches Err(e) ==> e == CipherFault::Key,
{
    let mut mac = <cmac::Cmac<aes::Aes128> as Mac>::new_from_slice(key).map_err(
        |_| CipherFault::Key,
    )?;
    mac.update(data);
    Ok(mac.finalize().into_bytes().into())
}

/// The AES-192 CMAC tag of `data` under `key`.
pub uninterp spec fn cmac_aes192(key: Seq<u8>, data: Seq<u8>) -> Seq<u8>;

/// `cmac::Cmac::<aes::Aes192>`: `new_from_slice`, `update` and `finalize` in one.
/// A key of another length than 24 bytes is refused; the tag of any data is
/// [`cmac_aes192`].
#[verifier::external_body]
pub(crate) fn aes192_cmac(key: &[u8], data: &[u8]) -> (r: Result<[u8; 16], CipherFault>)
    ensures
        r is Ok <==> key@.len() == 24,
        r matches Ok(tag) ==> tag@ == cmac_aes192(key@, data@),
        r matches Err(e) ==> e == CipherFault::Key,
{
    let mut mac = <cmac::Cmac<aes::Aes192> as Mac>::new_from_slice(key).map_err(
        |_| CipherFault::Key,
    )?;
    mac.update(data);
    Ok(mac.finalize().into_bytes().into())
}

/// The AES-256 CMAC tag of `data` under `key`.
pub uninterp spec fn cmac_aes256(key: Seq<u8>, data: Seq<u8>) -> Seq<u8>;

/// `cmac::Cmac::<aes::Aes256>`: `new_from_slice`, `update` and `finalize` in one.
/// A key of another length than 32 bytes is refused; the tag of any data is
/// [`cmac_aes256`].
#[verifier::external_body]
pub(crate) fn aes256_cmac(key: &[u8], data: &[u8]) -> (r: Result<[u8; 16], CipherFault>)
    ensures
        r is Ok <==> key@.len() == 32,
        r matches Ok(tag) ==> tag@ == cmac_aes256(key@, data@),
        r matches Err(e) ==> e == CipherFault::Key,
{
    let mut mac = <cmac::Cmac<aes::Aes256> as Mac>::new_from_slice(key).map_err(
        |_| CipherFault::Key,
    )?;
    mac.update(data);
    Ok(mac.finalize().into_bytes().into())
}

/// What AES-128 in CBC mode makes of whole blocks.
pub uninterp spec fn cbc_aes128(key: Seq<u8>, iv: Seq<u8>, data: Seq<u8>) -> Seq<u8>;

/// `cbc::Encryptor::<aes::Aes128>`: `new_from_slices` and
/// `encrypt_padded_mut::<NoPadding>`, which encrypts the first `msg_len` bytes of
/// `buf` in place. A key of another length than 16 bytes is refused, and so are
/// data that are not whole blocks of 16 bytes or reach past `buf`; then nothing is
/// written. Otherwise the data become [`cbc_aes128`], of the same length, and the rest of
/// `buf` stays.
#[verifier::external_body]
pub(crate) fn aes128_cbc_encrypt(
    key: &[u8],
    iv: &[u8; 16],
    buf: &mut [u8],
    msg_len: usize,
) -> (r: Result<usize, CipherFault>)
    ensures
        r is Ok <==> (key@.len() == 16 && msg_len <= old(buf)@.len() && msg_len % 16 == 0),
        r matches Ok(n) ==> n == msg_len && final(buf)@ == with_front(
            old(buf)@,
            cbc_aes128(key@, iv@, front(old(buf)@, msg_len)),
        ) && cbc_aes128(key@, iv@, front(old(buf)@, msg_len)).len() == n,
        r matches Err(e) ==> final(buf)@ == old(buf)@ && e == (if key@.len() != 16 {
            CipherFault::Key
        } else {
            CipherFault::Data
        }),
{
    let cipher = cbc::Encryptor::<aes::Aes128>::new_from_slices(key, iv).map_err(
        |_| CipherFault::Key,
    )?;
    let done = cipher.encrypt_padded_mut::<NoPadding>(buf, msg_len).map_err(
        |_| CipherFault::Data,
    )?;
    Ok(done.len())
}

/// What AES-128 decryption in CBC mode makes of whole blocks.
pub uninterp spec fn uncbc_aes128(key: Seq<u8>, iv: Seq<u8>, data: Seq<u8>) -> Seq<u8>;

/// `cbc::Decryptor::<aes::Aes128>`: `new_from_slices` and
/// `decrypt_padded_mut::<NoPadding>`, which decrypts all of `buf` in place. A key of
/// another length than 16 bytes is refused, and so are data that are not whole
/// blocks of 16 bytes; then nothing is written. Decryption undoes encryption: what
/// [`cbc_aes128`] made of whole blocks becomes those blocks again.
#[verifier::external_body]
pub(crate) fn aes128_cbc_decrypt(key: &[u8], iv: &[u8; 16], buf: &mut [u8]) -> (r: Result<
    usize,
    CipherFault,
>)
    ensures
        r is Ok <==> (key@.len() == 16 && old(buf)@.len() % 16 == 0),
        r matches Ok(n) ==> n == old(buf)@.len() && final(buf)@ == uncbc_aes128(
            key@,
            iv@,
            old(buf)@,
        ) && final(buf)@.len() == old(buf)@.len(),
        r is Ok ==> forall|data: Seq<u8>|
            data.len() % 16 == 0 && old(buf)@ == sized(
                #[trigger] cbc_aes128(key@, iv@, data),
                data.len(),
            ) ==> final(buf)@ == data,
        r matches Err(e) ==> final(buf)@ == old(buf)@ && e == (if key@.len() != 16 {
            CipherFault::Key
        } else {
            CipherFault::Data
        }),
{
    let cipher = cbc::Decryptor::<aes::Aes128>::new_from_slices(key, iv).map_err(
        |_| CipherFault::Key,
    )?;
    let done = cipher.decrypt_padded_mut::<NoPadding>(buf).map_err(|_| CipherFault::Data)?;
    Ok(done.len())
}

/// What AES-192 in CBC mode makes of whole blocks.
pub uninterp spec fn cbc_aes192(key: Seq<u8>, iv: Seq<u8>, data: Seq<u8>) -> Seq<u8>;

/// `cbc::Encryptor::<aes::Aes192>`: `new_from_slices` and
/// `encrypt_padded_mut::<NoPadding>`, which encrypts the first `msg_len` bytes of
/// `buf` in place. A key of another length than 24 bytes is refused, and so are
/// data that are not whole blocks of 16 bytes or reach past `buf`; then nothing is
/// written. Otherwise the data become [`cbc_aes192`], of the same length, and the rest of
/// `buf` stays.
#[verifier::external_body]
pub(crate) fn aes192_cbc_encrypt(
    key: &[u8],
    iv: &[u8; 16],
    buf: &mut [u8],
    msg_len: usize,
) -> (r: Result<usize, CipherFault>)
    ensures
        r is Ok <==> (key@.len() == 24 && msg_len <= old(buf)@.len() && msg_len % 16 == 0),
        r matches Ok(n) ==> n == msg_len && final(buf)@ == with_front(
            old(buf)@,
            cbc_aes192(key@, iv@, front(old(buf)@, msg_len)),
        ) && cbc_aes192(key@, iv@, front(old(buf)@, msg_len)).len() == n,
        r matches Err(e) ==> final(buf)@ == old(buf)@ && e == (if key@.len() != 24 {
            CipherFault::Key
        } else {
            CipherFault::Data
        }),
{
    let cipher = cbc::Encryptor::<aes::Aes192>::new_from_slices(key, iv).map_err(
        |_| CipherFault::Key,
    )?;
    let done = cipher.encrypt_padded_mut::<NoPadding>(buf, msg_len).map_err(
        |_| CipherFault::Data,
    )?;
    Ok(done.len())
}

/// What AES-192 decryption in CBC mode makes of whole blocks.
pub uninterp spec fn uncbc_aes192(key: Seq<u8>, iv: Seq<u8>, data: Seq<u8>) -> Seq<u8>;

/// `cbc::Decryptor::<aes::Aes192>`: `new_from_slices` and
/// `decrypt_padded_mut::<NoPadding>`, which decrypts all of `buf` in place. A key of
/// another length than 24 bytes is refused, and so are data that are not whole
/// blocks of 16 bytes; then nothing is written. Decryption undoes encryption: what
/// [`cbc_aes192`] made of whole blocks becomes those blocks again.
#[verifier::external_body]
pub(crate) fn aes192_cbc_decrypt(key: &[u8], iv: &[u8; 16], buf: &mut [u8]) -> (r: Result<
    usize,
    CipherFault,
>)
    ensures
        r is Ok <==> (key@.len() == 24 && old(buf)@.len() % 16 == 0),
        r matches Ok(n) ==> n == old(buf)@.len() && final(buf)@ == uncbc_aes192(
            key@,
            iv@,
            old(buf)@,
        ) && final(buf)@.len() == old(buf)@.len(),
        r is Ok ==> forall|data: Seq<u8>|
            data.len() % 16 == 0 && old(buf)@ == sized(
                #[trigger] cbc_aes192(key@, iv@, data),
                data.len(),
            ) ==> final(buf)@ == data,
        r matches Err(e) ==> final(buf)@ == old(buf)@ && e == (if key@.len() != 24 {
            CipherFault::Key
        } else {
            CipherFault::Data
        }),
{
    let cipher = cbc::Decryptor::<aes::Aes192>::new_from_slices(key, iv).map_err(
        |_| CipherFault::Key,
    )?;
    let done = cipher.decrypt_padded_mut::<NoPadding>(buf).map_err(|_| CipherFault::Data)?;
    Ok(done.len())
}

/// What AES-256 in CBC mode makes of whole blocks.
pub uninterp spec fn cbc_aes256(key: Seq<u8>, iv: Seq<u8>, data: Seq<u8>) -> Seq<u8>;

/// `cbc::Encryptor::<aes::Aes256>`: `new_from_slices` and
/// `encrypt_padded_mut::<NoPadding>`, which encrypts the first `msg_len` bytes of
/// `buf` in place. A key of another length than 32 bytes is refused, and so are
/// data that are not whole blocks of 16 bytes or reach past `buf`; then nothing is
/// written. Otherwise the data become [`cbc_aes256`], of the same length, and the rest of
/// `buf` stays.
#[verifier::external_body]
pub(crate) fn aes256_cbc_encrypt(
    key: &[u8],
    iv: &[u8; 16],
    buf: &mut [u8],
    msg_len: usize,
) -> (r: Result<usize, CipherFault>)
    ensures
        r is Ok <==> (key@.len() == 32 && msg_len <= old(buf)@.len() && msg_len % 16 == 0),
        r matches Ok(n) ==> n == msg_len && final(buf)@ == with_front(
            old(buf)@,
            cbc_aes256(key@, iv@, front(old(buf)@, msg_len)),
        ) && cbc_aes256(key@, iv@, front(old(buf)@, msg_len)).len() == n,
        r matches Err(e) ==> final(buf)@ == old(buf)@ && e == (if key@.len() != 32 {
            CipherFault::Key
        } else {
            CipherFault::Data
        }),
{
    let cipher = cbc::Encryptor::<aes::Aes256>::new_from_slices(key, iv).map_err(
        |_| CipherFault::Key,
    )?;
    let done = cipher.encrypt_padded_mut::<NoPadding>(buf, msg_len).map_err(
        |_| CipherFault::Data,
    )?;
    Ok(done.len())
}

/// What AES-256 decryption in CBC mode makes of whole blocks.
pub uninterp spec fn uncbc_aes256(key: Seq<u8>, iv: Seq<u8>, data: Seq<u8>) -> Seq<u8>;

/// `cbc::Decryptor::<aes::Aes256>`: `new_from_slices` and
/// `decrypt_padded_mut::<NoPadding>`, which decrypts all of `buf` in place. A key of
/// another length than 32 bytes is refused, and so are data that are not whole
/// blocks of 16 bytes; then nothing is written. Decryption undoes encryption: what
/// [`cbc_aes256`] made of whole blocks becomes those blocks again.
#[verifier::external_body]
pub(crate) fn aes256_cbc_decrypt(key: &[u8], iv: &[u8; 16], buf: &mut [u8]) -> (r: Result<
    usize,
    CipherFault,
>)
    ensures
        r is Ok <==> (key@.len() == 32 && old(buf)@.len() % 16 == 0),
        r matches Ok(n) ==> n == old(buf)@.len() && final(buf)@ == uncbc_aes256(
            key@,
            iv@,
            old(buf)@,
        ) && final(buf)@.len() == old(buf)@.len(),
        r is Ok ==> forall|data: Seq<u8>|
            data.len() % 16 == 0 && old(buf)@ == sized(
                #[trigger] cbc_aes256(key@, iv@, data),
                data.len(),
            ) ==> final(buf)@ == data,
        r matches Err(e) ==> final(buf)@ == old(buf)@ && e == (if key@.len() != 32 {
            CipherFault::Key
        } else {
            CipherFault::Data
        }),
{
    let cipher = cbc::Decryptor::<aes::Aes256>::new_from_slices(key, iv).map_err(
        |_| CipherFault::Key,
    )?;
    let done = cipher.decrypt_padded_mut::<NoPadding>(buf).map_err(|_| CipherFault::Data)?;
    Ok(done.len())
}

/// What single DES in CBC mode makes of whole blocks.
pub uninterp spec fn cbc_des(key: Seq<u8>, iv: Seq<u8>, data: Seq<u8>) -> Seq<u8>;

/// `cbc::Encryptor::<des::Des>`: `new_from_slices` and
/// `encrypt_padded_mut::<NoPadding>`, which encrypts the first `msg_len` bytes of
/// `buf` in place. A key of another length than 8 bytes is refused, and so are
/// data that are not whole blocks of 8 bytes or reach past `buf`; then nothing is
/// written. Otherwise the data become [`cbc_des`], of the same length, and the rest of
/// `buf` stays.
#[verifier::external_body]
pub(crate) fn des_cbc(
    key: &[u8],
    iv: &[u8; 8],
    buf: &mut [u8],
    msg_len: usize,
) -> (r: Result<usize, CipherFault>)
    ensures
        r is Ok <==> (key@.len() == 8 && msg_len <= old(buf)@.len() && msg_len % 8 == 0),
        r matches Ok(n) ==> n == msg_len && final(buf)@ == with_front(
            old(buf)@,
            cbc_des(key@, iv@, front(old(buf)@, msg_len)),
        ) && cbc_des(key@, iv@, front(old(buf)@, msg_len)).len() == n,
        r matches Err(e) ==> final(buf)@ == old(buf)@ && e == (if key@.len() != 8 {
            CipherFault::Key
        } else {
            CipherFault::Data
        }),
{
    let cipher = cbc::Encryptor::<des::Des>::new_from_slices(key, iv).map_err(
        |_| CipherFault::Key,
    )?;
    let done = cipher.encrypt_padded_mut::<NoPadding>(buf, msg_len).map_err(
        |_| CipherFault::Data,
    )?;
    Ok(done.len())
}

/// What two-key triple DES in CBC mode makes of whole blocks.
pub uninterp spec fn cbc_tdes(key: Seq<u8>, iv: Seq<u8>, data: Seq<u8>) -> Seq<u8>;

/// `cbc::Encryptor::<des::TdesEde2>`: `new_from_slices` and
/// `encrypt_padded_mut::<NoPadding>`, which encrypts the first `msg_len` bytes of
/// `buf` in place. A key of another length than 16 bytes is refused, and so are
/// data that are not whole blocks of 8 bytes or reach past `buf`; then nothing is
/// written. Otherwise the data become [`cbc_tdes`], of the same length, and the rest of
/// `buf` stays.
#[verifier::external_body]
pub(crate) fn tdes_cbc(
    key: &[u8],
    iv: &[u8; 8],
    buf: &mut [u8],
    msg_len: usize,
) -> (r: Result<usize, CipherFault>)
    ensures
        r is Ok <==> (key@.len() == 16 && msg_len <= old(buf)@.len() && msg_len % 8 == 0),
        r matches Ok(n) ==> n == msg_len && final(buf)@ == with_front(
            old(buf)@,
            cbc_tdes(key@, iv@, front(old(buf)@, msg_len)),
        ) && cbc_tdes(key@, iv@, front(old(buf)@, msg_len)).len() == n,
        r matches Err(e) ==> final(buf)@ == old(buf)@ && e == (if key@.len() != 16 {
            CipherFault::Key
        } else {
            CipherFault::Data
        }),
{
    let cipher = cbc::Encryptor::<des::TdesEde2>::new_from_slices(key, iv).map_err(
        |_| CipherFault::Key,
    )?;
    let done = cipher.encrypt_padded_mut::<NoPadding>(buf, msg_len).map_err(
        |_| CipherFault::Data,
    )?;
    Ok(done.len())
}

} // verus!
