//! SCP03 sessions.
use heapless::Vec as HVec;
use scll::backend::{KeyBackend, KeyHandle, KeyKind, Scp03Backend, Scp03Session, ScpMode};
use scll::error::{BackendError, Detail, ScllError};
use scll::limits::{CAPDU_MAX, ENC_KEY_BLOCK_MAX, RAPDU_MAX, SCP03_S16_MAX};
use scll::scp::scp03::{begin, cap_security_level, i_supported, iu_command, parse_iu_response};
use scll::util::HexSlice;


fn v(bytes: &[u8]) -> HVec<u8, SCP03_S16_MAX> {
    let mut out: HVec<u8, SCP03_S16_MAX> = HVec::new();
    out.extend_from_slice(bytes).unwrap();
    out
}

/// Pure stub backend: canned cryptograms / pseudo-challenge, real `ct_eq`,
/// echoing wrap. Lets the framing/decision logic in `begin` be tested
/// without crypto. Fields are length-flexible (8 or 16) for S8/S16.
struct StubBackend {
    card_crypto: HVec<u8, SCP03_S16_MAX>,
    host_crypto: HVec<u8, SCP03_S16_MAX>,
    pseudo_challenge: HVec<u8, SCP03_S16_MAX>,
}

impl KeyBackend for StubBackend {
    fn import_key(&mut self, _k: KeyKind, _b: &[u8]) -> Result<KeyHandle, BackendError> {
        Ok(KeyHandle::new(0))
    }
    fn generate_key(&mut self, _k: KeyKind) -> Result<KeyHandle, BackendError> {
        Ok(KeyHandle::new(0))
    }
    fn compute_kcv(&mut self, _h: &KeyHandle) -> Result<[u8; 3], BackendError> {
        Ok([0; 3])
    }
    fn random_bytes(&mut self, out: &mut [u8]) -> Result<(), BackendError> {
        out.fill(0);
        Ok(())
    }
    fn ct_eq(&self, a: &[u8], b: &[u8]) -> bool {
        a == b
    }
}

impl Scp03Backend for StubBackend {
    fn scp03_derive_session(
        &mut self,
        _e: &KeyHandle,
        _m: &KeyHandle,
        _mode: ScpMode,
        _h: &[u8],
        _c: &[u8],
    ) -> Result<Scp03Session, BackendError> {
        Ok(Scp03Session::new(0))
    }
    fn scp03_card_cryptogram(
        &mut self,
        _s: &Scp03Session,
        _h: &[u8],
        _c: &[u8],
    ) -> Result<HVec<u8, SCP03_S16_MAX>, BackendError> {
        Ok(self.card_crypto.clone())
    }
    fn scp03_host_cryptogram(
        &mut self,
        _s: &Scp03Session,
        _h: &[u8],
        _c: &[u8],
    ) -> Result<HVec<u8, SCP03_S16_MAX>, BackendError> {
        Ok(self.host_crypto.clone())
    }
    fn scp03_pseudo_card_challenge(
        &mut self,
        _e: &KeyHandle,
        _mode: ScpMode,
        _seq: &[u8; 3],
        _aid: &[u8],
    ) -> Result<HVec<u8, SCP03_S16_MAX>, BackendError> {
        Ok(self.pseudo_challenge.clone())
    }
    fn scp03_wrap_command(
        &mut self,
        _s: &mut Scp03Session,
        capdu: &[u8],
    ) -> Result<HVec<u8, CAPDU_MAX>, BackendError> {
        let mut out = HVec::new();
        out.extend_from_slice(capdu)
            .map_err(|()| BackendError::Crypto(Detail::Fixed("")))?;
        Ok(out)
    }
    fn scp03_unwrap_response(
        &mut self,
        _s: &mut Scp03Session,
        rapdu: &[u8],
    ) -> Result<HVec<u8, RAPDU_MAX>, BackendError> {
        let mut out = HVec::new();
        out.extend_from_slice(rapdu)
            .map_err(|()| BackendError::Crypto(Detail::Fixed("")))?;
        Ok(out)
    }
    fn scp03_encrypt_put_key_payload(
        &mut self,
        _d: &KeyHandle,
        _n: &KeyHandle,
    ) -> Result<HVec<u8, ENC_KEY_BLOCK_MAX>, BackendError> {
        Ok(HVec::new())
    }
    fn scp03_close_session(&mut self, _s: Scp03Session) {}
}

/// Build a synthetic IU response. `challenge`/`crypto` are 8 bytes (S8) or
/// 16 bytes (S16) matching `i & 0x08`; a 3-byte sequence counter is appended
/// when `i & 0x10` is set. Capacity 48 = S16 pseudo-random max.
fn iu_bytes(kvn: u8, scp: u8, i: u8, challenge: &[u8], crypto: &[u8]) -> HVec<u8, 48> {
    let mut b: HVec<u8, 48> = HVec::new();
    let _ = b.extend_from_slice(&[0u8; 10]); // key diversification data
    let _ = b.push(kvn);
    let _ = b.push(scp);
    let _ = b.push(i);
    let _ = b.extend_from_slice(challenge);
    let _ = b.extend_from_slice(crypto);
    if i & 0x10 != 0 {
        let _ = b.extend_from_slice(&[0xAB, 0xCD, 0xEF]); // sequence counter
    }
    b
}

#[test]
fn iu_command_bytes_s8() {
    let host = [0, 1, 2, 3, 4, 5, 6, 7];
    let apdu = iu_command(0x00, &host).unwrap();
    assert_eq!(
        HexSlice(&apdu),
        HexSlice(&[0x80, 0x50, 0x00, 0x00, 0x08, 0, 1, 2, 3, 4, 5, 6, 7, 0x00])
    );
}

#[test]
fn iu_command_bytes_s16() {
    // 16-byte host challenge ⇒ Lc = 0x10.
    let host = [0u8; 16];
    let apdu = iu_command(0x00, &host).unwrap();
    assert_eq!(apdu[4], 0x10);
    assert_eq!(apdu.len(), 5 + 16 + 1);
}

#[test]
fn parse_valid_iu_random_s8() {
    // i=0x60: S8 random + R-MAC + R-ENC ⇒ 29 bytes, no seq counter.
    let b = iu_bytes(0x01, 0x03, 0x60, &[9; 8], &[0xAA; 8]);
    assert_eq!(b.len(), 29);
    let iu = parse_iu_response(&b).unwrap();
    assert_eq!(iu.kvn, 0x01);
    assert_eq!(iu.i_param, 0x60);
    assert_eq!(iu.mode, ScpMode::S8);
    assert_eq!(&iu.card_challenge[..], &[9u8; 8]);
    assert_eq!(&iu.card_cryptogram[..], &[0xAAu8; 8]);
    assert_eq!(iu.sequence_counter, None);
}

#[test]
fn parse_valid_iu_pseudo_random_s8() {
    // i=0x70: S8 pseudo-random + R-MAC + R-ENC ⇒ 32 bytes, seq present.
    let b = iu_bytes(0x01, 0x03, 0x70, &[9; 8], &[0xAA; 8]);
    assert_eq!(b.len(), 32);
    let iu = parse_iu_response(&b).unwrap();
    assert_eq!(iu.mode, ScpMode::S8);
    assert_eq!(iu.sequence_counter, Some([0xAB, 0xCD, 0xEF]));
}

#[test]
fn parse_valid_iu_random_s16() {
    // i=0x68: S16 (0x08) random + R-MAC + R-ENC ⇒ 45 bytes, no seq counter.
    let b = iu_bytes(0x01, 0x03, 0x68, &[9; 16], &[0xAA; 16]);
    assert_eq!(b.len(), 45);
    let iu = parse_iu_response(&b).unwrap();
    assert_eq!(iu.i_param, 0x68);
    assert_eq!(iu.mode, ScpMode::S16);
    assert_eq!(&iu.card_challenge[..], &[9u8; 16]);
    assert_eq!(&iu.card_cryptogram[..], &[0xAAu8; 16]);
    assert_eq!(iu.sequence_counter, None);
}

#[test]
fn parse_valid_iu_pseudo_random_s16() {
    // i=0x78: S16 pseudo-random + R-MAC + R-ENC ⇒ 48 bytes, seq present.
    let b = iu_bytes(0x01, 0x03, 0x78, &[9; 16], &[0xAA; 16]);
    assert_eq!(b.len(), 48);
    let iu = parse_iu_response(&b).unwrap();
    assert_eq!(iu.mode, ScpMode::S16);
    assert_eq!(&iu.card_challenge[..], &[9u8; 16]);
    assert_eq!(iu.sequence_counter, Some([0xAB, 0xCD, 0xEF]));
}

#[test]
fn a_copy_of_an_answer_is_equal_to_it() {
    let b = iu_bytes(0x01, 0x03, 0x78, &[9; 16], &[0xAA; 16]);
    let iu = parse_iu_response(&b).unwrap();
    assert_eq!(iu.clone(), iu);
}

#[test]
fn scp03_parse_rejects_wrong_length() {
    // Shorter than the fixed prefix.
    assert!(matches!(
        parse_iu_response(&[0u8; 12]),
        Err(ScllError::ScpProtocolUnsupported)
    ));
    // Valid S8 prefix (scp=03, i=0x60 ⇒ expect 29) but one byte too long.
    let mut wrong = iu_bytes(0x00, 0x03, 0x60, &[0; 8], &[0; 8]);
    let _ = wrong.push(0x00);
    assert!(matches!(
        parse_iu_response(&wrong),
        Err(ScllError::ScpProtocolUnsupported)
    ));
}

#[test]
fn parse_rejects_seq_counter_mismatch() {
    // Pseudo-random i (expects 32) but only 29 bytes ⇒ length mismatch.
    let mut short = iu_bytes(0x00, 0x03, 0x70, &[9; 8], &[0xAA; 8]);
    short.truncate(29);
    assert!(matches!(
        parse_iu_response(&short),
        Err(ScllError::ScpProtocolUnsupported)
    ));
    // Random i (expects 29) but 32 bytes ⇒ length mismatch.
    let mut long = iu_bytes(0x00, 0x03, 0x60, &[9; 8], &[0xAA; 8]);
    let _ = long.extend_from_slice(&[0, 0, 0]);
    assert!(matches!(
        parse_iu_response(&long),
        Err(ScllError::ScpProtocolUnsupported)
    ));
}

#[test]
fn parse_rejects_non_scp03() {
    let b = iu_bytes(0x00, 0x02, 0x70, &[0; 8], &[0; 8]); // SCP02 id
    assert!(matches!(
        parse_iu_response(&b),
        Err(ScllError::ScpProtocolUnsupported)
    ));
}

#[test]
fn parse_rejects_out_of_scope_i() {
    // 0x04 = RFU bit (out of scope). Build an S8-shaped 29-byte body.
    let b = iu_bytes(0x00, 0x03, 0x04, &[0; 8], &[0; 8]);
    assert!(matches!(
        parse_iu_response(&b),
        Err(ScllError::NoCommonSecurityLevel)
    ));
}

#[test]
fn i_supported_table() {
    // In scope: S8/S16 × random/pseudo-random × R-MAC/R-ENC combos.
    for i in [
        0x00, 0x10, 0x20, 0x30, 0x60, 0x70, // S8
        0x08, 0x18, 0x28, 0x38, 0x68, 0x78, // S16
    ] {
        assert!(i_supported(i), "{i:#04x} should be supported");
    }
    // Out of scope: R-ENC without R-MAC (0x40/0x48), RFU bits (0x01/0x02/0x04).
    for i in [0x40, 0x48, 0x50, 0x04, 0x02, 0x01] {
        assert!(!i_supported(i), "{i:#04x} should be unsupported");
    }
}

#[test]
fn scp03_level_cap_table() {
    // i=0x70 (R-MAC+R-ENC capable): full 0x33 survives.
    assert_eq!(cap_security_level(0x70, 0x33).unwrap(), 0x33);
    // i=0x30 (R-MAC only): R-ENC bit masked off.
    assert_eq!(cap_security_level(0x30, 0x33).unwrap(), 0x13);
    // i=0x10 (no R-MAC/R-ENC): only C-MAC+C-DEC.
    assert_eq!(cap_security_level(0x10, 0x33).unwrap(), 0x03);
    // S16 capability bits are read identically (0x08 is mode, not a level).
    assert_eq!(cap_security_level(0x78, 0x33).unwrap(), 0x33);
    // Requesting nothing the card allows → error.
    assert!(matches!(
        cap_security_level(0x10, 0x20),
        Err(ScllError::NoCommonSecurityLevel)
    ));
}

#[test]
fn begin_happy_path_s8_pseudo_random() {
    // i=0x70 (S8 pseudo-random): card cryptogram AND pseudo-random challenge
    // are both verified. pseudo_challenge must match the IU card challenge.
    let mut backend = StubBackend {
        card_crypto: v(&[0xAA; 8]),
        host_crypto: v(&[0xBB; 8]),
        pseudo_challenge: v(&[9; 8]),
    };
    let enc = KeyHandle::new(0);
    let mac = KeyHandle::new(1);
    let host = [0u8; 8];
    let aid = [0xA0u8; 8];
    let iu = iu_bytes(0x00, 0x03, 0x70, &[9; 8], &[0xAA; 8]);
    let (state, ea) = begin(&mut backend, &enc, &mac, 0x00, 0x33, &host, &aid, &iu).unwrap();
    assert_eq!(state.i_param(), 0x70);
    assert_eq!(state.security_level(), 0x33);
    // EA plaintext: 84 82 33 00 08 <host_cryptogram> (stub echoes it).
    assert_eq!(
        HexSlice(&ea),
        HexSlice(&[
            0x84, 0x82, 0x33, 0x00, 0x08, 0xBB, 0xBB, 0xBB, 0xBB, 0xBB, 0xBB, 0xBB, 0xBB
        ])
    );
}

#[test]
fn begin_happy_path_s16() {
    // i=0x78 (S16 pseudo-random + R-MAC + R-ENC): 16-byte fields.
    let mut backend = StubBackend {
        card_crypto: v(&[0xAA; 16]),
        host_crypto: v(&[0xBB; 16]),
        pseudo_challenge: v(&[9; 16]),
    };
    let host = [0u8; 16];
    let aid = [0xA0u8; 8];
    let iu = iu_bytes(0x00, 0x03, 0x78, &[9; 16], &[0xAA; 16]);
    let (state, ea) = begin(
        &mut backend,
        &KeyHandle::new(0),
        &KeyHandle::new(1),
        0x00,
        0x33,
        &host,
        &aid,
        &iu,
    )
    .unwrap();
    assert_eq!(state.i_param(), 0x78);
    assert_eq!(state.security_level(), 0x33);
    // EA: 84 82 33 00 10 <16-byte host cryptogram>.
    assert_eq!(ea[4], 0x10);
    assert_eq!(&ea[5..], &[0xBBu8; 16]);
}

#[test]
fn begin_random_skips_challenge_check() {
    // i=0x60 (S8 random, no seq counter): the pseudo-challenge is NOT
    // consulted even when it would mismatch: what
    // decides is the sequence counter.
    let mut backend = StubBackend {
        card_crypto: v(&[0xAA; 8]),
        host_crypto: v(&[0xBB; 8]),
        pseudo_challenge: v(&[0xFF; 8]), // deliberately wrong
    };
    let iu = iu_bytes(0x00, 0x03, 0x60, &[9; 8], &[0xAA; 8]);
    let r = begin(
        &mut backend,
        &KeyHandle::new(0),
        &KeyHandle::new(1),
        0x00,
        0x33,
        &[0u8; 8],
        &[0xA0u8; 8],
        &iu,
    );
    assert!(r.is_ok());
}

#[test]
fn begin_rejects_bad_pseudo_challenge() {
    // Pseudo-random card, card cryptogram OK, but challenge mismatches.
    let mut backend = StubBackend {
        card_crypto: v(&[0xAA; 8]),
        host_crypto: v(&[0xBB; 8]),
        pseudo_challenge: v(&[0xFF; 8]), // != iu card challenge [9;8]
    };
    let iu = iu_bytes(0x00, 0x03, 0x70, &[9; 8], &[0xAA; 8]);
    let r = begin(
        &mut backend,
        &KeyHandle::new(0),
        &KeyHandle::new(1),
        0x00,
        0x33,
        &[0u8; 8],
        &[0xA0u8; 8],
        &iu,
    );
    assert!(matches!(r, Err(ScllError::CardChallengeFail)));
}

#[test]
fn scp03_begin_rejects_bad_card_cryptogram() {
    let mut backend = StubBackend {
        card_crypto: v(&[0xAA; 8]),
        host_crypto: v(&[0xBB; 8]),
        pseudo_challenge: v(&[9; 8]),
    };
    let iu = iu_bytes(0x00, 0x03, 0x70, &[9; 8], &[0xCC; 8]); // != card_crypto
    let r = begin(
        &mut backend,
        &KeyHandle::new(0),
        &KeyHandle::new(1),
        0x00,
        0x33,
        &[0u8; 8],
        &[0xA0u8; 8],
        &iu,
    );
    assert!(matches!(r, Err(ScllError::CardCryptogramFail)));
}

#[test]
fn scp03_begin_rejects_kvn_mismatch() {
    let mut backend = StubBackend {
        card_crypto: v(&[0xAA; 8]),
        host_crypto: v(&[0xBB; 8]),
        pseudo_challenge: v(&[9; 8]),
    };
    let iu = iu_bytes(0x05, 0x03, 0x70, &[9; 8], &[0xAA; 8]);
    let r = begin(
        &mut backend,
        &KeyHandle::new(0),
        &KeyHandle::new(1),
        0x01,
        0x33,
        &[0u8; 8],
        &[0xA0u8; 8],
        &iu,
    );
    assert!(matches!(r, Err(ScllError::KvnMismatch)));
}

#[test]
fn begin_caps_level_for_i30() {
    let mut backend = StubBackend {
        card_crypto: v(&[0xAA; 8]),
        host_crypto: v(&[0xBB; 8]),
        pseudo_challenge: v(&[9; 8]),
    };
    let iu = iu_bytes(0x00, 0x03, 0x30, &[9; 8], &[0xAA; 8]);
    let (state, ea) = begin(
        &mut backend,
        &KeyHandle::new(0),
        &KeyHandle::new(1),
        0x00,
        0x33,
        &[0u8; 8],
        &[0xA0u8; 8],
        &iu,
    )
    .unwrap();
    assert_eq!(state.security_level(), 0x13);
    assert_eq!(ea[2], 0x13); // EA P1 carries the capped level
}
