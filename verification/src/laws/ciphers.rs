//! Key derivation, padding and MACs.
use vstd::prelude::*;

use crate::laws::octets::{all_zero, lemma_number_2, number};
use crate::rustcrypto::crypto::{
    aes_block, aes_cbc, aes_uncbc, cmac_tag, derived, des_block, des_chain, kdf_blocks, kdf_input,
    padded, padding_start, retail_mac_of, tdes_block, tdes_chain, tdes_mac_of,
};
use crate::rustcrypto::primitives::{
    cbc_aes128, cbc_aes192, cbc_aes256, cbc_des, cbc_tdes, cmac_aes128, cmac_aes192, cmac_aes256,
    uncbc_aes128, uncbc_aes192, uncbc_aes256,
};

verus! {

/// The length of a key decides the cipher, and the cipher is given key, initial value
/// and data as they are. A tag has 16 bytes, and encrypted data are as long as the data.
pub proof fn law_cipher_by_key_length(key: Seq<u8>, iv: Seq<u8>, data: Seq<u8>, i: int)
    ensures
        cmac_tag(key, data).len() == 16,
        0 <= i < 16 && key.len() == 16 ==> cmac_tag(key, data)[i] == cmac_aes128(key, data)[i],
        0 <= i < 16 && key.len() == 24 ==> cmac_tag(key, data)[i] == cmac_aes192(key, data)[i],
        0 <= i < 16 && key.len() == 32 ==> cmac_tag(key, data)[i] == cmac_aes256(key, data)[i],
        aes_cbc(key, iv, data).len() == data.len(),
        0 <= i < data.len() && key.len() == 16 ==> aes_cbc(key, iv, data)[i] == cbc_aes128(
            key,
            iv,
            data,
        )[i],
        0 <= i < data.len() && key.len() == 24 ==> aes_cbc(key, iv, data)[i] == cbc_aes192(
            key,
            iv,
            data,
        )[i],
        0 <= i < data.len() && key.len() == 32 ==> aes_cbc(key, iv, data)[i] == cbc_aes256(
            key,
            iv,
            data,
        )[i],
        key.len() == 16 ==> aes_uncbc(key, iv, data) == uncbc_aes128(key, iv, data),
        key.len() == 24 ==> aes_uncbc(key, iv, data) == uncbc_aes192(key, iv, data),
        key.len() == 32 ==> aes_uncbc(key, iv, data) == uncbc_aes256(key, iv, data),
{
}

/// AES of one block is CBC from an initial value of sixteen zeros.
pub proof fn law_one_block_is_cbc_from_zero(key: Seq<u8>, iv: Seq<u8>, block: Seq<u8>)
    requires
        iv.len() == 16,
        all_zero(iv),
    ensures
        aes_block(key, block) == aes_cbc(key, iv, block),
{
    assert(iv =~= crate::rustcrypto::crypto::zeros(16));
}

/// A derivation input: eleven zeros, the constant, a zero, the length in bits in two
/// octets, the number of the block in one, and the context.
pub proof fn law_derivation_input(constant: u8, l_bits: u16, counter: u8, context: Seq<u8>)
    ensures
        ({
            let input = kdf_input(constant, l_bits, counter, context);
            &&& input.len() == 16 + context.len()
            &&& all_zero(input.take(11))
            &&& input[11] == constant
            &&& input[12] == 0
            &&& number(input.subrange(13, 15)) == l_bits
            &&& input[15] == counter
            &&& input.skip(16) == context
        }),
{
    let input = kdf_input(constant, l_bits, counter, context);
    lemma_number_2(input.subrange(13, 15));
    assert(input.skip(16) =~= context);
}

/// Blocks of one derivation that differ in their number, and derivations that differ in
/// constant, length or context, have different inputs.
pub proof fn law_derivation_inputs_differ(
    constant: u8,
    l_bits: u16,
    counter: u8,
    context: Seq<u8>,
    constant2: u8,
    l_bits2: u16,
    counter2: u8,
    context2: Seq<u8>,
)
    requires
        kdf_input(constant, l_bits, counter, context) == kdf_input(
            constant2,
            l_bits2,
            counter2,
            context2,
        ),
    ensures
        constant == constant2,
        l_bits == l_bits2,
        counter == counter2,
        context == context2,
{
    law_derivation_input(constant, l_bits, counter, context);
    law_derivation_input(constant2, l_bits2, counter2, context2);
}

/// Octet `i` of derived key material is octet `i mod 16` of the CMAC of the input whose
/// sixteenth octet is the number of the block that `i` falls in, counted from one.
pub proof fn law_derived_octet(
    key: Seq<u8>,
    constant: u8,
    l_bits: u16,
    context: Seq<u8>,
    len: nat,
    i: int,
    input: Seq<u8>,
)
    requires
        0 <= i < len,
        i < 16 * 255,
        input.len() == 16 + context.len(),
        all_zero(input.take(11)),
        input[11] == constant,
        input[12] == 0,
        number(input.subrange(13, 15)) == l_bits,
        input[15] == i / 16 + 1,
        input.skip(16) == context,
    ensures
        derived(key, constant, l_bits, context, len).len() == len,
        derived(key, constant, l_bits, context, len)[i] == cmac_tag(key, input)[i % 16],
{
    let n = (i / 16 + 1) as nat;
    lemma_number_2(input.subrange(13, 15));
    let made = kdf_input(constant, l_bits, (n % 256) as u8, context);
    assert(input =~= made) by {
        assert forall|k: int| 0 <= k < input.len() implies input[k] == made[k] by {
            if k < 11 {
                assert(input.take(11)[k] == 0);
            } else if k >= 16 {
                assert(input.skip(16)[k - 16] == context[k - 16]);
            } else if k == 13 {
                assert(input.subrange(13, 15)[0] == input[13]);
                assert(input.subrange(13, 15)[1] == input[14]);
            } else if k == 14 {
                assert(input.subrange(13, 15)[0] == input[13]);
                assert(input.subrange(13, 15)[1] == input[14]);
            }
        }
    }
    let total = (len + 15) / 16;
    lemma_block_of_derivation(key, constant, l_bits, context, total, n, i % 16);
    assert(16 * (n - 1) + i % 16 == i);
}

/// Where block `n` stands among the first `total`.
proof fn lemma_block_of_derivation(
    key: Seq<u8>,
    constant: u8,
    l_bits: u16,
    context: Seq<u8>,
    total: nat,
    n: nat,
    j: int,
)
    requires
        1 <= n <= total,
        0 <= j < 16,
    ensures
        kdf_blocks(key, constant, l_bits, context, total).len() == 16 * total,
        kdf_blocks(key, constant, l_bits, context, total)[16 * (n - 1) + j] == cmac_tag(
            key,
            kdf_input(constant, l_bits, (n % 256) as u8, context),
        )[j],
    decreases total,
{
    if n < total {
        lemma_block_of_derivation(key, constant, l_bits, context, (total - 1) as nat, n, j);
    } else {
        lemma_blocks_len(key, constant, l_bits, context, (total - 1) as nat);
    }
}

proof fn lemma_blocks_len(key: Seq<u8>, constant: u8, l_bits: u16, context: Seq<u8>, n: nat)
    ensures
        kdf_blocks(key, constant, l_bits, context, n).len() == 16 * n,
    decreases n,
{
    if n > 0 {
        lemma_blocks_len(key, constant, l_bits, context, (n - 1) as nat);
    }
}

/// Padded data are the data, the octet `80`, and as few zeros as make whole blocks.
pub proof fn law_padding_octets(data: Seq<u8>, block: nat)
    requires
        block > 0,
    ensures
        ({
            let p = padded(data, block);
            &&& p.take(data.len() as int) == data
            &&& p[data.len() as int] == 0x80
            &&& all_zero(p.skip(data.len() as int + 1))
            &&& p.len() % block == 0
            &&& data.len() < p.len() <= data.len() + block
        }),
{
    crate::rustcrypto::crypto::law_unpad_inverts_pad(data, block);
}

/// Triple DES and DES are given key, initial value and data as they are, and give as
/// many bytes; one block is CBC from eight zeros.
pub proof fn law_des_chains(key: Seq<u8>, iv: Seq<u8>, data: Seq<u8>, i: int)
    ensures
        tdes_chain(key, iv, data).len() == data.len(),
        des_chain(key, iv, data).len() == data.len(),
        0 <= i < data.len() ==> tdes_chain(key, iv, data)[i] == cbc_tdes(key, iv, data)[i],
        0 <= i < data.len() ==> des_chain(key, iv, data)[i] == cbc_des(key, iv, data)[i],
        iv.len() == 8 && all_zero(iv) ==> tdes_block(key, data) == tdes_chain(key, iv, data),
        iv.len() == 8 && all_zero(iv) ==> des_block(key, data) == des_chain(key, iv, data),
{
    if iv.len() == 8 && all_zero(iv) {
        assert(iv =~= crate::rustcrypto::crypto::zeros(8));
    }
}

/// The full triple DES MAC of data is the last eight octets of the triple DES chain over
/// the data, the octet `80` and zeros up to whole blocks.
pub proof fn law_full_mac(key: Seq<u8>, iv: Seq<u8>, data: Seq<u8>, filled: Seq<u8>, i: int)
    requires
        filled.len() % 8 == 0,
        data.len() < filled.len() <= data.len() + 8,
        filled.take(data.len() as int) == data,
        filled[data.len() as int] == 0x80,
        all_zero(filled.skip(data.len() as int + 1)),
        0 <= i < 8,
    ensures
        tdes_mac_of(key, iv, data).len() == 8,
        tdes_mac_of(key, iv, data)[i] == tdes_chain(key, iv, filled)[filled.len() - 8 + i],
{
    lemma_filled(data, filled, 8);
}

/// The retail MAC of data: over the data, the octet `80` and zeros up to whole blocks,
/// all blocks but the last go through single DES under the first half of the key, and
/// the last one through triple DES from where that ended.
pub proof fn law_retail_mac(
    key: Seq<u8>,
    iv: Seq<u8>,
    data: Seq<u8>,
    filled: Seq<u8>,
    chain: Seq<u8>,
)
    requires
        filled.len() % 8 == 0,
        data.len() < filled.len() <= data.len() + 8,
        filled.take(data.len() as int) == data,
        filled[data.len() as int] == 0x80,
        all_zero(filled.skip(data.len() as int + 1)),
        filled.len() == 8 ==> chain == iv,
        filled.len() > 8 ==> chain == des_chain(
            key.take(8),
            iv,
            filled.take(filled.len() - 8),
        ).skip(filled.len() - 16),
    ensures
        retail_mac_of(key, iv, data) == tdes_chain(key, chain, filled.skip(filled.len() - 8)),
        retail_mac_of(key, iv, data).len() == 8,
{
    lemma_filled(data, filled, 8);
}

/// There is one way to fill data up to whole blocks.
proof fn lemma_filled(data: Seq<u8>, filled: Seq<u8>, block: nat)
    requires
        block == 8 || block == 16,
        filled.len() % block == 0,
        data.len() < filled.len() <= data.len() + block,
        filled.take(data.len() as int) == data,
        filled[data.len() as int] == 0x80,
        all_zero(filled.skip(data.len() as int + 1)),
    ensures
        filled == padded(data, block),
{
    law_padding_octets(data, block);
    let p = padded(data, block);
    let n = data.len() as int;
    assert(filled =~= p) by {
        assert forall|k: int| 0 <= k < filled.len() implies filled[k] == p[k] by {
            if k < n {
                assert(filled.take(n)[k] == data[k]);
            } else if k > n {
                assert(filled.skip(n + 1)[k - n - 1] == 0);
                assert(p.skip(n + 1)[k - n - 1] == 0);
            }
        }
    }
}

/// Data that were filled up to whole AES blocks are the padded data.
pub proof fn law_one_way_to_pad(data: Seq<u8>, filled: Seq<u8>)
    requires
        filled.len() % 16 == 0,
        data.len() < filled.len() <= data.len() + 16,
        filled.take(data.len() as int) == data,
        filled[data.len() as int] == 0x80,
        all_zero(filled.skip(data.len() as int + 1)),
    ensures
        filled == padded(data, 16),
{
    lemma_filled(data, filled, 16);
}

/// Taking padding off gives the data back, whatever they end in.
pub proof fn law_padding_comes_off(data: Seq<u8>, filled: Seq<u8>)
    requires
        data.len() < filled.len(),
        filled.take(data.len() as int) == data,
        filled[data.len() as int] == 0x80,
        all_zero(filled.skip(data.len() as int + 1)),
    ensures
        padding_start(filled) == Some(data.len()),
    decreases filled.len(),
{
    let n = data.len() as int;
    if filled.len() > n + 1 {
        assert(filled.skip(n + 1)[filled.len() - n - 2] == 0);
        let init = filled.drop_last();
        assert(init.take(n) =~= data);
        assert forall|k: int| 0 <= k < init.skip(n + 1).len() implies #[trigger] init.skip(
            n + 1,
        )[k] == 0 by {
            assert(filled.skip(n + 1)[k] == 0);
        }
        law_padding_comes_off(data, init);
    }
}

/// Where padding is found, it is an `80` with nothing but zeros behind it; and where
/// none is found, there is no such octet.
pub proof fn law_padding_is_marked(s: Seq<u8>)
    ensures
        padding_start(s) matches Some(n) ==> n < s.len() && s[n as int] == 0x80 && all_zero(
            s.skip(n as int + 1),
        ),
        padding_start(s) is None ==> forall|n: int|
            0 <= n < s.len() && #[trigger] s[n] == 0x80 ==> !all_zero(s.skip(n + 1)),
    decreases s.len(),
{
    if padding_start(s) is None {
        assert forall|n: int| 0 <= n < s.len() && #[trigger] s[n] == 0x80 implies !all_zero(
            s.skip(n + 1),
        ) by {
            if all_zero(s.skip(n + 1)) {
                law_padding_comes_off(s.take(n), s);
            }
        }
    } else if s.last() == 0 {
        law_padding_is_marked(s.drop_last());
        let n = padding_start(s)->Some_0 as int;
        assert forall|k: int| 0 <= k < s.skip(n + 1).len() implies #[trigger] s.skip(n + 1)[k]
            == 0 by {
            if k < s.len() - n - 2 {
                assert(s.drop_last().skip(n + 1)[k] == 0);
            }
        }
    }
}

} // verus!
