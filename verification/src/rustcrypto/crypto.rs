//! The cryptographic building blocks of SCP02 and SCP03.
use vstd::prelude::*;

use crate::error::{BackendError, Detail};
use crate::rustcrypto::primitives::{
    aes128_cbc_decrypt, aes128_cbc_encrypt, aes128_cmac, aes192_cbc_decrypt, aes192_cbc_encrypt,
    aes192_cmac, aes256_cbc_decrypt, aes256_cbc_encrypt, aes256_cmac, cbc_aes128, cbc_aes192,
    cbc_aes256, cbc_des, cbc_tdes, cmac_aes128, cmac_aes192, cmac_aes256, des_cbc, front, sized,
    tdes_cbc, uncbc_aes128, uncbc_aes192, uncbc_aes256, with_front, CipherFault,
};

verus! {

/// AES block size, which is also the length of a CMAC tag.
pub const BLOCK: usize = 16;

/// DES block size.
pub const DES_BLOCK: usize = 8;

/// Longest input of one key derivation block.
const KDF_BLOCK_MAX: usize = 64;

// ---- AES -------------------------------------------------------------------

/// An AES key has 16, 24 or 32 bytes.
pub open spec fn is_aes_key(key: Seq<u8>) -> bool {
    key.len() == 16 || key.len() == 24 || key.len() == 32
}

/// The AES-CMAC tag of `data`.
pub open spec fn cmac_tag(key: Seq<u8>, data: Seq<u8>) -> Seq<u8> {
    sized(
        if key.len() == 16 {
            cmac_aes128(key, data)
        } else if key.len() == 24 {
            cmac_aes192(key, data)
        } else {
            cmac_aes256(key, data)
        },
        16,
    )
}

/// AES-CBC encryption of whole blocks.
pub open spec fn aes_cbc(key: Seq<u8>, iv: Seq<u8>, data: Seq<u8>) -> Seq<u8> {
    sized(
        if key.len() == 16 {
            cbc_aes128(key, iv, data)
        } else if key.len() == 24 {
            cbc_aes192(key, iv, data)
        } else {
            cbc_aes256(key, iv, data)
        },
        data.len(),
    )
}

/// AES-CBC decryption of whole blocks.
pub open spec fn aes_uncbc(key: Seq<u8>, iv: Seq<u8>, data: Seq<u8>) -> Seq<u8> {
    if key.len() == 16 {
        uncbc_aes128(key, iv, data)
    } else if key.len() == 24 {
        uncbc_aes192(key, iv, data)
    } else {
        uncbc_aes256(key, iv, data)
    }
}

/// `n` zero bytes.
pub open spec fn zeros(n: nat) -> Seq<u8> {
    Seq::new(n, |i: int| 0u8)
}

/// AES of one block: CBC with a zero initial value.
pub open spec fn aes_block(key: Seq<u8>, block: Seq<u8>) -> Seq<u8> {
    aes_cbc(key, zeros(16), block)
}

/// AES-CMAC over `data`.
pub fn aes_cmac(key: &[u8], data: &[u8], out: &mut [u8; BLOCK]) -> (r: Result<(), BackendError>)
    ensures
        match r {
            Ok(()) => is_aes_key(key@) && final(out)@ == cmac_tag(key@, data@),
            Err(e) => !is_aes_key(key@) && *final(out) == *old(out) && e
                == BackendError::Crypto(Detail::Fixed("unsupported AES key length")),
        },
{
    let tag: Result<[u8; 16], CipherFault> = match key.len() {
        16 => aes128_cmac(key, data),
        24 => aes192_cmac(key, data),
        32 => aes256_cmac(key, data),
        _ => Err(CipherFault::Key),
    };
    match tag {
        Ok(t) => {
            *out = t;
            Ok(())
        },
        Err(_) => Err(BackendError::Crypto(Detail::Fixed("unsupported AES key length"))),
    }
}

/// AES-CBC encrypts the first `msg_len` bytes of `buf` in place.
pub fn aes_cbc_encrypt(key: &[u8], iv: &[u8; BLOCK], buf: &mut [u8], msg_len: usize) -> (r: Result<
    usize,
    BackendError,
>)
    ensures
        final(buf)@.len() == old(buf)@.len(),
        match r {
            Ok(n) => {
                &&& is_aes_key(key@)
                &&& msg_len <= old(buf)@.len()
                &&& msg_len % 16 == 0
                &&& n == msg_len
                &&& final(buf)@ == with_front(
                    old(buf)@,
                    aes_cbc(key@, iv@, old(buf)@.take(msg_len as int)),
                )
            },
            Err(e) => {
                &&& final(buf)@ == old(buf)@
                &&& !(is_aes_key(key@) && msg_len <= old(buf)@.len() && msg_len % 16 == 0)
                &&& e == (if !is_aes_key(key@) {
                    BackendError::Crypto(Detail::Fixed("unsupported AES key length"))
                } else {
                    BackendError::Crypto(Detail::Fixed("cbc encrypt"))
                })
            },
        },
{
    let done: Result<usize, CipherFault> = match key.len() {
        16 => aes128_cbc_encrypt(key, iv, buf, msg_len),
        24 => aes192_cbc_encrypt(key, iv, buf, msg_len),
        32 => aes256_cbc_encrypt(key, iv, buf, msg_len),
        _ => Err(CipherFault::Key),
    };
    match done {
        Ok(n) => Ok(n),
        Err(CipherFault::Key) => Err(
            BackendError::Crypto(Detail::Fixed("unsupported AES key length")),
        ),
        Err(CipherFault::Data) => Err(BackendError::Crypto(Detail::Fixed("cbc encrypt"))),
    }
}

/// AES-CBC decrypts all of `buf` in place. What [`aes_cbc_encrypt`] made of whole
/// blocks becomes those blocks again.
pub fn aes_cbc_decrypt(key: &[u8], iv: &[u8; BLOCK], buf: &mut [u8]) -> (r: Result<
    usize,
    BackendError,
>)
    ensures
        final(buf)@.len() == old(buf)@.len(),
        match r {
            Ok(n) => {
                &&& is_aes_key(key@)
                &&& old(buf)@.len() % 16 == 0
                &&& n == old(buf)@.len()
                &&& final(buf)@ == aes_uncbc(key@, iv@, old(buf)@)
                &&& forall|data: Seq<u8>|
                    data.len() % 16 == 0 && old(buf)@ == #[trigger] aes_cbc(key@, iv@, data)
                        ==> final(buf)@ == data
            },
            Err(e) => {
                &&& final(buf)@ == old(buf)@
                &&& !(is_aes_key(key@) && old(buf)@.len() % 16 == 0)
                &&& e == (if !is_aes_key(key@) {
                    BackendError::Crypto(Detail::Fixed("unsupported AES key length"))
                } else {
                    BackendError::Crypto(Detail::Fixed("cbc decrypt"))
                })
            },
        },
{
    let done: Result<usize, CipherFault> = match key.len() {
        16 => aes128_cbc_decrypt(key, iv, buf),
        24 => aes192_cbc_decrypt(key, iv, buf),
        32 => aes256_cbc_decrypt(key, iv, buf),
        _ => Err(CipherFault::Key),
    };
    match done {
        Ok(n) => Ok(n),
        Err(CipherFault::Key) => Err(
            BackendError::Crypto(Detail::Fixed("unsupported AES key length")),
        ),
        Err(CipherFault::Data) => Err(BackendError::Crypto(Detail::Fixed("cbc decrypt"))),
    }
}

/// AES of one block.
pub fn aes_ecb_block(key: &[u8], block_in: &[u8; BLOCK], out: &mut [u8; BLOCK]) -> (r: Result<
    (),
    BackendError,
>)
    ensures
        match r {
            Ok(()) => is_aes_key(key@) && final(out)@ == aes_block(key@, block_in@),
            Err(e) => !is_aes_key(key@) && *final(out) == *old(out) && e
                == BackendError::Crypto(Detail::Fixed("unsupported AES key length")),
        },
{
    let mut buf: [u8; BLOCK] = *block_in;
    let zero_iv: [u8; BLOCK] = [0u8; BLOCK];
    aes_cbc_encrypt(key, &zero_iv, &mut buf, BLOCK)?;
    *out = buf;
    proof {
        assert(zero_iv@ =~= zeros(16));
        assert(block_in@.take(16) =~= block_in@);
        assert(out@ =~= aes_block(key@, block_in@));
    }
    Ok(())
}

// ---- Key derivation --------------------------------------------------------

/// The input of one derivation block (NIST SP 800-108r1 in counter mode, as
/// Amendment D §4.1.5 lays it out).
pub open spec fn kdf_input(constant: u8, l_bits: u16, counter: u8, context: Seq<u8>) -> Seq<u8> {
    zeros(11) + seq![
        constant,
        0u8,
        (l_bits / 256) as u8,
        (l_bits % 256) as u8,
        counter,
    ] + context
}

/// The first `n` blocks of a derivation; the counter starts at one.
pub open spec fn kdf_blocks(
    key: Seq<u8>,
    constant: u8,
    l_bits: u16,
    context: Seq<u8>,
    n: nat,
) -> Seq<u8>
    decreases n,
{
    if n == 0 {
        Seq::empty()
    } else {
        kdf_blocks(key, constant, l_bits, context, (n - 1) as nat) + cmac_tag(
            key,
            kdf_input(constant, l_bits, (n % 256) as u8, context),
        )
    }
}

/// The first `len` bytes of a derivation.
pub open spec fn derived(
    key: Seq<u8>,
    constant: u8,
    l_bits: u16,
    context: Seq<u8>,
    len: nat,
) -> Seq<u8> {
    kdf_blocks(key, constant, l_bits, context, (len + 15) / 16).take(len as int)
}

/// `len` zero bytes.
pub(crate) fn zeroed(len: usize) -> (r: Vec<u8>)
    ensures
        r@ == zeros(len as nat),
{
    let mut v: Vec<u8> = Vec::new();
    let mut i: usize = 0;
    while i < len
        invariant
            i <= len,
            v@ =~= zeros(i as nat),
        decreases len - i,
    {
        v.push(0);
        i = i + 1;
    }
    v
}

/// Copies `src` to `dst`, starting at `at`.
pub(crate) fn copy_at(dst: &mut [u8], at: usize, src: &[u8])
    requires
        at + src@.len() <= old(dst)@.len(),
    ensures
        final(dst)@ == old(dst)@.take(at as int) + src@ + old(dst)@.skip(at + src@.len()),
{
    let ghost before = dst@;
    let mut i: usize = 0;
    while i < src.len()
        invariant
            i <= src@.len(),
            at + src@.len() <= dst.len(),
            dst@.len() == before.len(),
            dst@ =~= before.take(at as int) + src@.take(i as int) + before.skip(at + i),
        decreases src@.len() - i,
    {
        dst[at + i] = src[i];
        i = i + 1;
    }
    assert(src@.take(i as int) =~= src@);
}

/// The input of one derivation block.
fn kdf_block(constant: u8, l_bits: u16, counter: u8, context: &[u8]) -> (r: Result<
    Vec<u8>,
    BackendError,
>)
    ensures
        match r {
            Ok(v) => context@.len() + 16 <= KDF_BLOCK_MAX && v@ == kdf_input(
                constant,
                l_bits,
                counter,
                context@,
            ),
            Err(e) => context@.len() + 16 > KDF_BLOCK_MAX && e == BackendError::Crypto(
                Detail::Fixed("kdf overflow"),
            ),
        },
{
    if context.len() > KDF_BLOCK_MAX - 16 {
        return Err(BackendError::Crypto(Detail::Fixed("kdf overflow")));
    }
    let label: [u8; 11] = [0u8; 11];
    let head: [u8; 5] = [constant, 0x00, (l_bits / 256) as u8, (l_bits % 256) as u8, counter];
    let mut block: Vec<u8> = Vec::new();
    block.extend_from_slice(&label);
    block.extend_from_slice(&head);
    block.extend_from_slice(context);
    assert(block@ =~= kdf_input(constant, l_bits, counter, context@));
    Ok(block)
}

/// Derives key material: fills `out` with as many CMAC blocks as it takes.
pub fn kdf(key: &[u8], constant: u8, l_bits: u16, context: &[u8], out: &mut [u8]) -> (r: Result<
    (),
    BackendError,
>)
    ensures
        final(out)@.len() == old(out)@.len(),
        match r {
            Ok(()) => {
                &&& old(out)@.len() > 0 ==> context@.len() <= 48 && is_aes_key(key@)
                &&& final(out)@ == derived(key@, constant, l_bits, context@, old(out)@.len())
            },
            Err(e) => {
                &&& old(out)@.len() > 0
                &&& final(out)@ == old(out)@
                &&& !(context@.len() <= 48 && is_aes_key(key@))
                &&& e == (if context@.len() > 48 {
                    BackendError::Crypto(Detail::Fixed("kdf overflow"))
                } else {
                    BackendError::Crypto(Detail::Fixed("unsupported AES key length"))
                })
            },
        },
{
    let ghost before = out@;
    let len: usize = out.len();
    let mut counter: u8 = 1;
    let mut written: usize = 0;
    let ghost mut blocks: nat = 0;
    assert(out@ =~= kdf_blocks(key@, constant, l_bits, context@, 0) + before.skip(0));
    while written < len
        invariant
            len == before.len(),
            len == out@.len(),
            before == old(out)@,
            written <= len,
            counter == (blocks + 1) % 256,
            written == (if 16 * blocks < len {
                16 * blocks
            } else {
                len as nat
            }),
            blocks > 0 ==> context@.len() <= 48 && is_aes_key(key@),
            kdf_blocks(key@, constant, l_bits, context@, blocks).len() == 16 * blocks,
            out@ =~= kdf_blocks(key@, constant, l_bits, context@, blocks).take(written as int)
                + before.skip(written as int),
            16 * blocks < len + 16,
        decreases len - written,
    {
        let block: Vec<u8> = kdf_block(constant, l_bits, counter, context)?;
        let mut tag: [u8; BLOCK] = [0u8; BLOCK];
        aes_cmac(key, block.as_slice(), &mut tag)?;
        let take: usize = if len - written < BLOCK {
            len - written
        } else {
            BLOCK
        };
        let bytes: &[u8] = &tag;
        copy_at(out, written, &bytes[0..take]);
        proof {
            let old_blocks = kdf_blocks(key@, constant, l_bits, context@, blocks);
            let new_blocks = kdf_blocks(key@, constant, l_bits, context@, blocks + 1);
            assert(new_blocks =~= old_blocks + tag@);
            assert(old_blocks.take(written as int) =~= old_blocks);
            assert(out@ =~= new_blocks.take(written + take) + before.skip(written + take));
            blocks = blocks + 1;
        }
        written = written + take;
        counter = counter.wrapping_add(1);
    }
    proof {
        assert((len + 15) / 16 == blocks as int) by (nonlinear_arith)
            requires
                len as int <= 16 * blocks,
                16 * blocks < len + 16,
        ;
        assert(before.skip(written as int) =~= Seq::empty());
    }
    Ok(())
}

// ---- Padding ---------------------------------------------------------------

/// Padding of ISO/IEC 7816-4: the marker `80` and zeros up to the next whole
/// block; never nothing.
pub open spec fn padded(data: Seq<u8>, block: nat) -> Seq<u8> {
    data + seq![0x80u8] + zeros((block - 1 - data.len() % block) as nat)
}

/// Where the padding starts: at the last `80`, with only zeros behind it.
pub open spec fn padding_start(s: Seq<u8>) -> Option<nat>
    decreases s.len(),
{
    if s.len() == 0 {
        None
    } else if s.last() == 0x80 {
        Some((s.len() - 1) as nat)
    } else if s.last() == 0 {
        padding_start(s.drop_last())
    } else {
        None
    }
}

proof fn lemma_zeros_behind(s: Seq<u8>, n: nat)
    requires
        s.len() > 0,
        s.last() == 0x80,
    ensures
        padding_start(s + zeros(n)) == Some((s.len() - 1) as nat),
    decreases n,
{
    if n == 0 {
        assert(s + zeros(0) =~= s);
    } else {
        lemma_zeros_behind(s, (n - 1) as nat);
        assert((s + zeros(n)).drop_last() =~= s + zeros((n - 1) as nat));
    }
}

/// Padding can be taken off again, whatever the data: they may end in zeros or in
/// `80` themselves.
pub proof fn law_unpad_inverts_pad(data: Seq<u8>, block: nat)
    requires
        block > 0,
    ensures
        padding_start(padded(data, block)) == Some(data.len()),
        padded(data, block).take(data.len() as int) == data,
        padded(data, block).len() % block == 0,
        data.len() < padded(data, block).len() <= data.len() + block,
{
    let n = (block - 1 - data.len() % block) as nat;
    assert(data.len() % block < block) by (nonlinear_arith)
        requires
            block > 0,
    ;
    lemma_zeros_behind(data + seq![0x80u8], n);
    assert(padded(data, block).take(data.len() as int) =~= data);
    assert(padded(data, block).len() == data.len() - data.len() % block + block);
    assert((data.len() - data.len() % block + block) % (block as int) == 0) by (nonlinear_arith)
        requires
            block > 0,
    ;
}

/// Pads the first `len` bytes of `buf` in place to whole blocks.
fn pad_to(buf: &mut [u8], len: usize, block: usize) -> (r: Option<usize>)
    requires
        0 < block <= 16,
        len <= usize::MAX - 16,
    ensures
        final(buf)@.len() == old(buf)@.len(),
        match r {
            Some(n) => {
                &&& n <= old(buf)@.len()
                &&& n == len - len % block + block
                &&& final(buf)@ == with_front(
                    old(buf)@,
                    padded(old(buf)@.take(len as int), block as nat),
                )
            },
            None => len - len % block + block > old(buf)@.len() && final(buf)@ == old(buf)@,
        },
{
    let ghost before = buf@;
    let n: usize = len + (block - len % block);
    if n > buf.len() {
        return None;
    }
    buf[len] = 0x80;
    let mut i: usize = len + 1;
    while i < n
        invariant
            len + 1 <= i <= n <= before.len(),
            buf@.len() == before.len(),
            buf@ =~= before.take(len as int) + seq![0x80u8] + zeros((i - len - 1) as nat)
                + before.skip(i as int),
        decreases n - i,
    {
        buf[i] = 0x00;
        i = i + 1;
    }
    proof {
        let p = padded(before.take(len as int), block as nat);
        assert(p.len() == n);
        assert(buf@ =~= with_front(before, p));
    }
    Some(n)
}

/// Pads the first `len` bytes of `buf` to whole AES blocks; returns the padded
/// length.
pub fn pad80(buf: &mut [u8], len: usize) -> (r: Result<usize, BackendError>)
    requires
        len <= usize::MAX - 16,
    ensures
        final(buf)@.len() == old(buf)@.len(),
        match r {
            Ok(n) => {
                &&& n <= old(buf)@.len()
                &&& n == len - len % 16 + 16
                &&& final(buf)@ == with_front(old(buf)@, padded(old(buf)@.take(len as int), 16))
            },
            Err(e) => {
                &&& len - len % 16 + 16 > old(buf)@.len()
                &&& final(buf)@ == old(buf)@
                &&& e == BackendError::Crypto(Detail::Fixed("pad overflow"))
            },
        },
{
    match pad_to(buf, len, BLOCK) {
        Some(n) => Ok(n),
        None => Err(BackendError::Crypto(Detail::Fixed("pad overflow"))),
    }
}

/// Finds where the padding of `buf` starts.
pub fn unpad80(buf: &[u8]) -> (r: Result<usize, BackendError>)
    ensures
        match padding_start(buf@) {
            Some(n) => r matches Ok(len) && len == n,
            None => r matches Err(e) && e == BackendError::Crypto(Detail::Fixed("bad pad")),
        },
{
    let mut i: usize = buf.len();
    assert(buf@.take(i as int) =~= buf@);
    while i > 0
        invariant
            i <= buf@.len(),
            padding_start(buf@) == padding_start(buf@.take(i as int)),
        decreases i,
    {
        assert(buf@.take(i as int).drop_last() =~= buf@.take(i - 1));
        i = i - 1;
        if buf[i] == 0x80 {
            return Ok(i);
        }
        if buf[i] != 0x00 {
            return Err(BackendError::Crypto(Detail::Fixed("bad pad")));
        }
    }
    Err(BackendError::Crypto(Detail::Fixed("bad pad")))
}

// ---- DES -------------------------------------------------------------------

/// What two-key triple DES in CBC mode makes of whole blocks.
pub open spec fn tdes_chain(key: Seq<u8>, iv: Seq<u8>, data: Seq<u8>) -> Seq<u8> {
    sized(cbc_tdes(key, iv, data), data.len())
}

/// What single DES in CBC mode makes of whole blocks.
pub open spec fn des_chain(key: Seq<u8>, iv: Seq<u8>, data: Seq<u8>) -> Seq<u8> {
    sized(cbc_des(key, iv, data), data.len())
}

/// Triple DES of one block: CBC with a zero initial value.
pub open spec fn tdes_block(key: Seq<u8>, block: Seq<u8>) -> Seq<u8> {
    tdes_chain(key, zeros(8), block)
}

/// Single DES of one block.
pub open spec fn des_block(key: Seq<u8>, block: Seq<u8>) -> Seq<u8> {
    des_chain(key, zeros(8), block)
}

/// The last eight bytes.
pub open spec fn last_block(s: Seq<u8>) -> Seq<u8> {
    s.skip(s.len() - 8)
}

/// The MAC of a triple DES chain: the last block of the padded data.
pub open spec fn tdes_mac_of(key: Seq<u8>, iv: Seq<u8>, data: Seq<u8>) -> Seq<u8> {
    last_block(tdes_chain(key, iv, padded(data, 8)))
}

/// The retail MAC (ISO/IEC 9797-1 algorithm 3): a single DES chain over all
/// blocks but the last, and triple DES for the last one.
pub open spec fn retail_mac_of(key: Seq<u8>, iv: Seq<u8>, data: Seq<u8>) -> Seq<u8> {
    let p = padded(data, 8);
    let head = p.take(p.len() - 8);
    let chain = if head.len() == 0 {
        iv
    } else {
        last_block(des_chain(key.take(8), iv, head))
    };
    tdes_chain(key, chain, last_block(p))
}

/// A retail MAC is one block.
pub proof fn law_retail_mac_length(key: Seq<u8>, iv: Seq<u8>, data: Seq<u8>)
    ensures
        retail_mac_of(key, iv, data).len() == 8,
{
    law_unpad_inverts_pad(data, 8);
}

/// Triple DES CBC encrypts the first `msg_len` bytes of `buf` in place.
pub fn tdes_cbc_encrypt(key: &[u8], iv: [u8; DES_BLOCK], buf: &mut [u8], msg_len: usize) -> (r:
    Result<usize, BackendError>)
    ensures
        final(buf)@.len() == old(buf)@.len(),
        match r {
            Ok(n) => {
                &&& key@.len() == 16
                &&& msg_len <= old(buf)@.len()
                &&& msg_len % 8 == 0
                &&& n == msg_len
                &&& final(buf)@ == with_front(
                    old(buf)@,
                    tdes_chain(key@, iv@, old(buf)@.take(msg_len as int)),
                )
            },
            Err(e) => {
                &&& final(buf)@ == old(buf)@
                &&& !(key@.len() == 16 && msg_len <= old(buf)@.len() && msg_len % 8 == 0)
                &&& e == (if key@.len() != 16 {
                    BackendError::Crypto(Detail::Fixed("3des cbc key/iv"))
                } else {
                    BackendError::Crypto(Detail::Fixed("3des cbc encrypt"))
                })
            },
        },
{
    match tdes_cbc(key, &iv, buf, msg_len) {
        Ok(n) => Ok(n),
        Err(CipherFault::Key) => Err(BackendError::Crypto(Detail::Fixed("3des cbc key/iv"))),
        Err(CipherFault::Data) => Err(BackendError::Crypto(Detail::Fixed("3des cbc encrypt"))),
    }
}

/// Single DES CBC encrypts the first `msg_len` bytes of `buf` in place.
pub fn des_cbc_encrypt(k1: &[u8], iv: [u8; DES_BLOCK], buf: &mut [u8], msg_len: usize) -> (r:
    Result<usize, BackendError>)
    ensures
        final(buf)@.len() == old(buf)@.len(),
        match r {
            Ok(n) => {
                &&& k1@.len() == 8
                &&& msg_len <= old(buf)@.len()
                &&& msg_len % 8 == 0
                &&& n == msg_len
                &&& final(buf)@ == with_front(
                    old(buf)@,
                    des_chain(k1@, iv@, old(buf)@.take(msg_len as int)),
                )
            },
            Err(e) => {
                &&& final(buf)@ == old(buf)@
                &&& !(k1@.len() == 8 && msg_len <= old(buf)@.len() && msg_len % 8 == 0)
                &&& e == (if k1@.len() != 8 {
                    BackendError::Crypto(Detail::Fixed("des cbc key/iv"))
                } else {
                    BackendError::Crypto(Detail::Fixed("des cbc encrypt"))
                })
            },
        },
{
    match des_cbc(k1, &iv, buf, msg_len) {
        Ok(n) => Ok(n),
        Err(CipherFault::Key) => Err(BackendError::Crypto(Detail::Fixed("des cbc key/iv"))),
        Err(CipherFault::Data) => Err(BackendError::Crypto(Detail::Fixed("des cbc encrypt"))),
    }
}

/// Triple DES of one block.
pub fn tdes_ecb_block(key: &[u8], block_in: [u8; DES_BLOCK], out: &mut [u8; DES_BLOCK]) -> (r:
    Result<(), BackendError>)
    ensures
        match r {
            Ok(()) => key@.len() == 16 && final(out)@ == tdes_block(key@, block_in@),
            Err(e) => key@.len() != 16 && *final(out) == *old(out) && e
                == BackendError::Crypto(Detail::Fixed("3des cbc key/iv")),
        },
{
    let mut buf: [u8; DES_BLOCK] = block_in;
    let zero_iv: [u8; DES_BLOCK] = [0u8; DES_BLOCK];
    tdes_cbc_encrypt(key, zero_iv, &mut buf, DES_BLOCK)?;
    *out = buf;
    proof {
        assert(zero_iv@ =~= zeros(8));
        assert(block_in@.take(8) =~= block_in@);
        assert(out@ =~= tdes_block(key@, block_in@));
    }
    Ok(())
}

/// Single DES of one block.
pub fn des_ecb_block(k1: &[u8], block_in: [u8; DES_BLOCK], out: &mut [u8; DES_BLOCK]) -> (r: Result<
    (),
    BackendError,
>)
    ensures
        match r {
            Ok(()) => k1@.len() == 8 && final(out)@ == des_block(k1@, block_in@),
            Err(e) => k1@.len() != 8 && *final(out) == *old(out) && e
                == BackendError::Crypto(Detail::Fixed("des cbc key/iv")),
        },
{
    let mut buf: [u8; DES_BLOCK] = block_in;
    let zero_iv: [u8; DES_BLOCK] = [0u8; DES_BLOCK];
    des_cbc_encrypt(k1, zero_iv, &mut buf, DES_BLOCK)?;
    *out = buf;
    proof {
        assert(zero_iv@ =~= zeros(8));
        assert(block_in@.take(8) =~= block_in@);
        assert(out@ =~= des_block(k1@, block_in@));
    }
    Ok(())
}

/// Pads the first `len` bytes of `buf` to whole DES blocks; returns the padded
/// length.
pub fn pad80_8(buf: &mut [u8], len: usize) -> (r: Result<usize, BackendError>)
    requires
        len <= usize::MAX - 16,
    ensures
        final(buf)@.len() == old(buf)@.len(),
        match r {
            Ok(n) => {
                &&& n <= old(buf)@.len()
                &&& n == len - len % 8 + 8
                &&& final(buf)@ == with_front(old(buf)@, padded(old(buf)@.take(len as int), 8))
            },
            Err(e) => {
                &&& len - len % 8 + 8 > old(buf)@.len()
                &&& final(buf)@ == old(buf)@
                &&& e == BackendError::Crypto(Detail::Fixed("3des pad overflow"))
            },
        },
{
    match pad_to(buf, len, DES_BLOCK) {
        Some(n) => Ok(n),
        None => Err(BackendError::Crypto(Detail::Fixed("3des pad overflow"))),
    }
}

/// Eight bytes of a slice.
fn block_at(s: &[u8], at: usize) -> (r: [u8; DES_BLOCK])
    requires
        at + 8 <= s@.len(),
    ensures
        r@ == s@.subrange(at as int, at + 8),
{
    let r: [u8; DES_BLOCK] = [
        s[at],
        s[at + 1],
        s[at + 2],
        s[at + 3],
        s[at + 4],
        s[at + 5],
        s[at + 6],
        s[at + 7],
    ];
    assert(r@ =~= s@.subrange(at as int, at + 8));
    r
}

/// Copies `data` to the front of `scratch` and pads it.
fn pad_into(scratch: &mut [u8], data: &[u8], too_large: &'static str) -> (r: Result<
    usize,
    BackendError,
>)
    requires
        data@.len() <= usize::MAX - 16,
    ensures
        final(scratch)@.len() == old(scratch)@.len(),
        match r {
            Ok(n) => {
                &&& n == padded(data@, 8).len()
                &&& n <= final(scratch)@.len()
                &&& final(scratch)@.take(n as int) == padded(data@, 8)
            },
            Err(e) => padded(data@, 8).len() > old(scratch)@.len() && e == (if data@.len()
                > old(scratch)@.len() {
                BackendError::Crypto(Detail::Fixed(too_large))
            } else {
                BackendError::Crypto(Detail::Fixed("3des pad overflow"))
            }),
        },
{
    proof {
        law_unpad_inverts_pad(data@, 8);
    }
    if data.len() > scratch.len() {
        return Err(BackendError::Crypto(Detail::Fixed(too_large)));
    }
    copy_at(scratch, 0, data);
    assert(scratch@.take(data@.len() as int) =~= data@);
    let n: usize = pad80_8(scratch, data.len())?;
    assert(scratch@.take(n as int) =~= padded(data@, 8));
    Ok(n)
}

/// The MAC of a triple DES chain. `scratch` has to hold the padded data.
pub fn tdes_mac(key: &[u8], iv: [u8; DES_BLOCK], data: &[u8], scratch: &mut [u8]) -> (r: Result<
    [u8; DES_BLOCK],
    BackendError,
>)
    requires
        data@.len() <= usize::MAX - 16,
    ensures
        final(scratch)@.len() == old(scratch)@.len(),
        match r {
            Ok(mac) => {
                &&& key@.len() == 16
                &&& padded(data@, 8).len() <= old(scratch)@.len()
                &&& mac@ == tdes_mac_of(key@, iv@, data@)
            },
            Err(e) => if data@.len() > old(scratch)@.len() {
                e == BackendError::Crypto(Detail::Fixed("mac input too large"))
            } else if padded(data@, 8).len() > old(scratch)@.len() {
                e == BackendError::Crypto(Detail::Fixed("3des pad overflow"))
            } else {
                key@.len() != 16 && e == BackendError::Crypto(Detail::Fixed("3des cbc key/iv"))
            },
        },
{
    proof {
        law_unpad_inverts_pad(data@, 8);
    }
    let padded_len: usize = pad_into(scratch, data, "mac input too large")?;
    let n: usize = tdes_cbc_encrypt(key, iv, scratch, padded_len)?;
    let mac: [u8; DES_BLOCK] = block_at(scratch, n - DES_BLOCK);
    proof {
        let chain = tdes_chain(key@, iv@, padded(data@, 8));
        assert(mac@ =~= last_block(chain));
    }
    Ok(mac)
}

/// The retail MAC. `scratch` has to hold the padded data.
pub fn retail_mac(key16: &[u8], iv: [u8; DES_BLOCK], data: &[u8], scratch: &mut [u8]) -> (r: Result<
    [u8; DES_BLOCK],
    BackendError,
>)
    requires
        data@.len() <= usize::MAX - 16,
        key16@.len() >= 8 || data@.len() < 8,
    ensures
        final(scratch)@.len() == old(scratch)@.len(),
        match r {
            Ok(mac) => {
                &&& key16@.len() == 16
                &&& padded(data@, 8).len() <= old(scratch)@.len()
                &&& mac@ == retail_mac_of(key16@, iv@, data@)
            },
            Err(e) => if data@.len() > old(scratch)@.len() {
                e == BackendError::Crypto(Detail::Fixed("retail-mac input too large"))
            } else if padded(data@, 8).len() > old(scratch)@.len() {
                e == BackendError::Crypto(Detail::Fixed("3des pad overflow"))
            } else {
                key16@.len() != 16 && e == BackendError::Crypto(Detail::Fixed("3des cbc key/iv"))
            },
        },
{
    proof {
        law_unpad_inverts_pad(data@, 8);
    }
    let padded_len: usize = pad_into(scratch, data, "retail-mac input too large")?;
    let ghost p = padded(data@, 8);
    let head: usize = padded_len - DES_BLOCK;
    let mut last: [u8; DES_BLOCK] = block_at(scratch, head);
    assert(last@ =~= last_block(p));
    let mut chain: [u8; DES_BLOCK] = iv;
    if head > 0 {
        let k1: &[u8] = &key16[0..DES_BLOCK];
        assert(k1@ =~= key16@.take(8));
        assert(scratch@.take(head as int) =~= p.take(head as int));
        let n: usize = des_cbc_encrypt(k1, iv, scratch, head)?;
        chain = block_at(scratch, n - DES_BLOCK);
        assert(chain@ =~= last_block(des_chain(key16@.take(8), iv@, p.take(head as int))));
    }
    assert(last@.take(8) =~= last@);
    let ghost plain_last = last@;
    tdes_cbc_encrypt(key16, chain, &mut last, DES_BLOCK)?;
    proof {
        assert(p.take(p.len() - 8) =~= p.take(head as int));
        assert(last@ =~= tdes_chain(key16@, chain@, plain_last));
    }
    Ok(last)
}

} // verus!
