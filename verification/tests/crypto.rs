//! Block ciphers, MACs and padding.
use aes::cipher::block_padding::NoPadding;
use aes::cipher::{BlockDecryptMut, KeyIvInit};
use scll::rustcrypto::crypto::{
    aes_cbc_decrypt, aes_cbc_encrypt, aes_cmac, aes_ecb_block, des_cbc_encrypt, des_ecb_block,
    kdf, pad80, pad80_8, retail_mac, tdes_cbc_encrypt, tdes_ecb_block, tdes_mac, unpad80, BLOCK,
    DES_BLOCK,
};

/// Bytes that a failing assertion shows in hexadecimal.
struct HexSlice<T>(T);

impl<T: AsRef<[u8]>> std::fmt::Debug for HexSlice<T> {
    fn fmt(&self, f: &mut std::fmt::Formatter<'_>) -> std::fmt::Result {
        f.write_str(&format!("{:02X?}", self.0.as_ref()))
    }
}

impl<A: AsRef<[u8]>, B: AsRef<[u8]>> PartialEq<HexSlice<B>> for HexSlice<A> {
    fn eq(&self, other: &HexSlice<B>) -> bool {
        self.0.as_ref() == other.0.as_ref()
    }
}

fn hx(s: &str) -> Vec<u8> {
    (0..s.len())
        .step_by(2)
        .map(|i| u8::from_str_radix(&s[i..i + 2], 16).unwrap())
        .collect()
}

/// Two-key triple DES in CBC mode, backwards.
fn tdes_cbc_decrypt(key: &[u8], iv: [u8; DES_BLOCK], buf: &mut [u8]) {
    let mut k24 = [0u8; 24];
    k24[..16].copy_from_slice(key);
    k24[16..].copy_from_slice(&key[..8]);
    let n = buf.len();
    cbc::Decryptor::<des::TdesEde3>::new_from_slices(&k24, &iv)
        .unwrap()
        .decrypt_padded_mut::<NoPadding>(&mut buf[..n])
        .unwrap();
}

#[test]
fn aes128_ecb_matches_fips197() {
    // FIPS-197 §C.1 AES-128 example.
    let key = hx("000102030405060708090a0b0c0d0e0f");
    let pt = hx("00112233445566778899aabbccddeeff");
    let mut blk = [0u8; BLOCK];
    blk.copy_from_slice(&pt);
    let mut out = [0u8; BLOCK];
    aes_ecb_block(&key, &blk, &mut out).unwrap();
    assert_eq!(
        HexSlice(out),
        HexSlice(hx("69c4e0d86a7b0430d8cdb78070b4c55a"))
    );
}

#[test]
fn aes_cmac_matches_rfc4493() {
    // RFC 4493 AES-CMAC test vectors (the SP 800-38B examples).
    let key = hx("2b7e151628aed2a6abf7158809cf4f3c");
    let mut t = [0u8; BLOCK];

    aes_cmac(&key, &[], &mut t).unwrap();
    assert_eq!(
        HexSlice(t),
        HexSlice(hx("bb1d6929e95937287fa37d129b756746"))
    );

    aes_cmac(&key, &hx("6bc1bee22e409f96e93d7e117393172a"), &mut t).unwrap();
    assert_eq!(
        HexSlice(t),
        HexSlice(hx("070a16b46b4d4144f79bdd9dd04a287c"))
    );

    aes_cmac(
        &key,
        &hx("6bc1bee22e409f96e93d7e117393172aae2d8a571e03ac9c9eb76fac45af8e5130c81c46a35ce411"),
        &mut t,
    )
    .unwrap();
    assert_eq!(
        HexSlice(t),
        HexSlice(hx("dfa66747de9ae63030ca32611497c827"))
    );
}

#[test]
fn cbc_round_trips_no_padding() {
    let key = hx("404142434445464748494a4b4c4d4e4f");
    let iv = [0u8; BLOCK];
    let mut buf = hx("0f0e0d0c0b0a09080706050403020100");
    let pt = buf.clone();
    let n = aes_cbc_encrypt(&key, &iv, &mut buf, BLOCK).unwrap();
    assert_eq!(n, BLOCK);
    // SCP03 PUT KEY block.
    assert_eq!(
        HexSlice(&buf),
        HexSlice(hx("fac3af9fb177982eaba2e63d9ef03986"))
    );
    aes_cbc_decrypt(&key, &iv, &mut buf).unwrap();
    assert_eq!(HexSlice(&buf), HexSlice(&pt));
}

#[test]
fn pad_round_trip() {
    let mut buf = [0u8; 32];
    buf[..5].copy_from_slice(&[1, 2, 3, 4, 5]);
    let n = pad80(&mut buf, 5).unwrap();
    assert_eq!(n, 16);
    assert_eq!(buf[5], 0x80);
    assert_eq!(unpad80(&buf[..n]).unwrap(), 5);
}

#[test]
fn unpad_rejects_missing_marker() {
    assert!(unpad80(&[0u8; 16]).is_err());
    assert!(unpad80(&[1u8; 16]).is_err());
}

#[test]
fn kdf_derives_scp03_session_keys() {
    // Amendment D §4.1.5 KDF with the GP default keyset 40..4F and the
    // fixed challenges.
    let key = hx("404142434445464748494a4b4c4d4e4f");
    let mut ctx = [0u8; 16];
    ctx[..8].copy_from_slice(&hx("0001020304050607"));
    ctx[8..].copy_from_slice(&hx("08090a0b0c0d0e0f"));

    let mut s_enc = [0u8; 16];
    let mut s_mac = [0u8; 16];
    let mut s_rmac = [0u8; 16];
    kdf(&key, 0x04, 0x0080, &ctx, &mut s_enc).unwrap();
    kdf(&key, 0x06, 0x0080, &ctx, &mut s_mac).unwrap();
    kdf(&key, 0x07, 0x0080, &ctx, &mut s_rmac).unwrap();
    assert_eq!(
        HexSlice(s_enc),
        HexSlice(hx("eb845bbc703969a9b312a5f8e4834aa2"))
    );
    assert_eq!(
        HexSlice(s_mac),
        HexSlice(hx("94d9141c5e50a39ef3939b9a4616c910"))
    );
    assert_eq!(
        HexSlice(s_rmac),
        HexSlice(hx("f034ed3222d3466ee1531f3fa3561def"))
    );
}

#[test]
fn kcv_matches_amendment_d() {
    // KCV = AES-ECB(key, 16×'01')[0..3] (Amendment D §4.1.4).
    let key = hx("404142434445464748494a4b4c4d4e4f");
    let mut out = [0u8; BLOCK];
    aes_ecb_block(&key, &[0x01u8; BLOCK], &mut out).unwrap();
    assert_eq!(HexSlice(&out[..3]), HexSlice(hx("504a77")));
}

// ------------------------- 3DES / SCP02 primitives -------------------------

#[test]
fn single_des_matches_fips81() {
    // FIPS-81 single-DES KAT: key 0123456789ABCDEF, PT "Now is t" ->
    // 3FA40E8A984D4815. Single-DES is exercised via [`des_ecb_block`]
    // (K1-only ECB), the same path SCP02 ICV encryption uses.
    let mut out = [0u8; DES_BLOCK];
    let mut blk = [0u8; DES_BLOCK];
    blk.copy_from_slice(&hx("4e6f772069732074"));
    des_ecb_block(&hx("0123456789abcdef"), blk, &mut out).unwrap();
    assert_eq!(HexSlice(out), HexSlice(hx("3fa40e8a984d4815")));
}

#[test]
fn tdes_ecb_block_and_kcv() {
    // Two-key 3DES (EDE2) ECB of one block, and the SCP02 KCV
    // (= 3DES-ECB(8×00)[0..3]). GP default key 40..4F.
    let key = hx("404142434445464748494a4b4c4d4e4f");
    let mut out = [0u8; DES_BLOCK];
    tdes_ecb_block(&key, [0u8; DES_BLOCK], &mut out).unwrap();
    assert_eq!(HexSlice(&out[..3]), HexSlice(hx("8baf47"))); // KCV(base)
}

#[test]
fn tdes_cbc_round_trips() {
    let key = hx("404142434445464748494a4b4c4d4e4f");
    let iv = [0u8; DES_BLOCK];
    let pt = hx("0f0e0d0c0b0a09080706050403020100");
    let mut buf = pt.clone();
    let n = tdes_cbc_encrypt(&key, iv, &mut buf, pt.len()).unwrap();
    assert_eq!(n, pt.len());
    tdes_cbc_decrypt(&key, iv, &mut buf);
    assert_eq!(HexSlice(&buf), HexSlice(&pt));
}

#[test]
fn pad80_8_always_adds() {
    // ISO/IEC 7816-4 over the 8-byte block: a block-aligned input grows by
    // a whole block; a short input pads to the next boundary.
    let mut buf = [0u8; 24];
    buf[..8].copy_from_slice(&[1, 2, 3, 4, 5, 6, 7, 8]);
    assert_eq!(pad80_8(&mut buf, 8).unwrap(), 16);
    assert_eq!(buf[8], 0x80);
    buf = [0u8; 24];
    buf[..5].copy_from_slice(&[1, 2, 3, 4, 5]);
    assert_eq!(pad80_8(&mut buf, 5).unwrap(), 8);
    assert_eq!(buf[5], 0x80);
}

#[test]
fn tdes_mac_cryptogram() {
    // SCP02 card cryptogram = mac_3des(host‖card, S-ENC, 0) over the
    // single (>1) block case.
    let s_enc = hx("25c9794a1205ff244f5fa0378d2f8d59");
    let mut data = [0u8; 14];
    data[..8].copy_from_slice(&hx("0001020304050607")); // host (8)
    data[8..].copy_from_slice(&hx("08090a0b0c0d")); // card (6)
    let mut scratch = [0u8; 24];
    let mac = tdes_mac(&s_enc, [0u8; DES_BLOCK], &data, &mut scratch).unwrap();
    assert_eq!(HexSlice(mac), HexSlice(hx("6daa8d379958426f"))); // CARD_CRYPTO
}

#[test]
fn retail_mac_matches_reference() {
    // ISO/IEC 9797-1 Alg. 3 over the EXTERNAL AUTHENTICATE MAC input
    // (13 bytes -> two blocks, exercising the single-DES chain + 3DES
    // final).
    let s_mac = hx("9bed98891580c3b245fe9ec58bfa8d2a");
    // MAC input: 84 82 03 00 10 || host_cryptogram(8)
    let mut data = [0u8; 13];
    data[..5].copy_from_slice(&hx("8482030010"));
    data[5..].copy_from_slice(&hx("362b63c93d629cfa"));
    let mut scratch = [0u8; 24];
    let mac = retail_mac(&s_mac, [0u8; DES_BLOCK], &data, &mut scratch).unwrap();
    assert_eq!(HexSlice(mac), HexSlice(hx("560f0b92db3192d3"))); // EA C-MAC
}

#[test]
fn aes_192_and_256_match_fips197() {
    let pt = hx("00112233445566778899aabbccddeeff");
    let mut blk = [0u8; BLOCK];
    blk.copy_from_slice(&pt);
    let mut out = [0u8; BLOCK];
    aes_ecb_block(
        &hx("000102030405060708090a0b0c0d0e0f1011121314151617"),
        &blk,
        &mut out,
    )
    .unwrap();
    assert_eq!(HexSlice(out), HexSlice(hx("dda97ca4864cdfe06eaf70a0ec0d7191")));
    aes_ecb_block(
        &hx("000102030405060708090a0b0c0d0e0f101112131415161718191a1b1c1d1e1f"),
        &blk,
        &mut out,
    )
    .unwrap();
    assert_eq!(HexSlice(out), HexSlice(hx("8ea2b7ca516745bfeafc49904b496089")));
}

#[test]
fn aes_cmac_with_longer_keys() {
    let mut t = [0u8; BLOCK];
    let data = hx("6bc1bee22e409f96e93d7e117393172a");
    aes_cmac(
        &hx("8e73b0f7da0e6452c810f32b809079e562f8ead2522c6b7b"),
        &data,
        &mut t,
    )
    .unwrap();
    assert_eq!(HexSlice(t), HexSlice(hx("9e99a7bf31e710900662f65e617c5184")));
    aes_cmac(
        &hx("603deb1015ca71be2b73aef0857d77811f352c073b6108d72d9810a30914dff4"),
        &data,
        &mut t,
    )
    .unwrap();
    assert_eq!(HexSlice(t), HexSlice(hx("28a7023f452e8f82bd4bf28d8c37c35c")));
}

#[test]
fn cbc_round_trips_with_every_key_length() {
    for n in [16, 24, 32] {
        let key: Vec<u8> = (0..n as u8).collect();
        let iv = [7u8; BLOCK];
        let pt: Vec<u8> = (0..48).collect();
        let mut buf = pt.clone();
        assert_eq!(aes_cbc_encrypt(&key, &iv, &mut buf, 48).unwrap(), 48);
        assert_ne!(buf, pt);
        aes_cbc_decrypt(&key, &iv, &mut buf).unwrap();
        assert_eq!(buf, pt);
    }
}

#[test]
fn wrong_key_lengths_are_refused() {
    let mut t = [0u8; BLOCK];
    let mut d = [0u8; DES_BLOCK];
    let mut buf = [0u8; 16];
    for n in [0usize, 8, 15, 17, 33] {
        let key = vec![0u8; n];
        assert!(aes_cmac(&key, &[], &mut t).is_err());
        assert!(aes_ecb_block(&key, &[0; BLOCK], &mut t).is_err());
        assert!(aes_cbc_encrypt(&key, &[0; BLOCK], &mut buf, 16).is_err());
        assert!(aes_cbc_decrypt(&key, &[0; BLOCK], &mut buf).is_err());
        assert!(tdes_ecb_block(&key, [0; DES_BLOCK], &mut d).is_err());
    }
    assert!(des_ecb_block(&[0; 16], [0; DES_BLOCK], &mut d).is_err());
}

#[test]
fn lengths_that_are_no_blocks_are_refused() {
    let mut buf = [0u8; 24];
    assert!(aes_cbc_encrypt(&[0; 16], &[0; BLOCK], &mut buf, 17).is_err());
    assert!(tdes_cbc_encrypt(&[0; 16], [0; DES_BLOCK], &mut buf, 7).is_err());
    assert!(des_cbc_encrypt(&[0; 8], [0; DES_BLOCK], &mut buf, 7).is_err());
    assert!(des_cbc_encrypt(&[0; 8], [0; DES_BLOCK], &mut buf, 16).is_ok());
}

#[test]
fn padding_that_does_not_fit_is_refused() {
    let mut buf = [0u8; 16];
    assert!(pad80(&mut buf, 16).is_err());
    assert!(pad80_8(&mut buf, 16).is_err());
    assert_eq!(pad80(&mut buf, 15).unwrap(), 16);
}

#[test]
fn unpadding_finds_the_last_marker() {
    for n in 0..40usize {
        let mut buf = vec![0x80u8; 64];
        let padded = pad80(&mut buf, n).unwrap();
        assert_eq!(padded % 16, 0);
        assert!(padded > n && padded <= n + 16);
        assert_eq!(unpad80(&buf[..padded]).unwrap(), n);
    }
}
