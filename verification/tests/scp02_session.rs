//! SCP02 sessions.
use heapless::Vec as HVec;
use scll::backend::{KeyBackend, KeyHandle, KeyKind, Scp02Backend, Scp02Session};
use scll::error::{BackendError, Detail, ScllError};
use scll::limits::{CAPDU_MAX, ENC_KEY_BLOCK_MAX, RAPDU_MAX};
use scll::scp::scp02::{begin, cap_security_level, iu_command, parse_iu_response};
use scll::util::HexSlice;


/// Pure stub backend: canned cryptograms, real `ct_eq`, echoing wrap. Lets
/// the framing/decision logic in `begin` be tested without crypto.
struct StubBackend {
    card_crypto: [u8; 8],
    host_crypto: [u8; 8],
}

impl KeyBackend for StubBackend {
    fn import_key(&mut self, _k: KeyKind, _b: &[u8]) -> Result<KeyHandle, BackendError> {
        Ok(KeyHandle::new(0))
    }
    fn generate_key(&mut self, _k: KeyKind) -> Result<KeyHandle, BackendError> {
        Ok(KeyHandle::new(0))
    }
    fn compute_kcv(&mut self, _h: &KeyHandle) -> Result<[u8; 3], BackendError> {
        Ok([0; 3])
    }
    fn random_bytes(&mut self, out: &mut [u8]) -> Result<(), BackendError> {
        out.fill(0);
        Ok(())
    }
    fn ct_eq(&self, a: &[u8], b: &[u8]) -> bool {
        a == b
    }
}

impl Scp02Backend for StubBackend {
    fn scp02_derive_session(
        &mut self,
        _e: &KeyHandle,
        _m: &KeyHandle,
        _d: &KeyHandle,
        _seq: [u8; 2],
    ) -> Result<Scp02Session, BackendError> {
        Ok(Scp02Session::new(0))
    }
    fn scp02_card_cryptogram(
        &mut self,
        _s: &Scp02Session,
        _h: &[u8; 8],
        _c: &[u8; 8],
    ) -> Result<[u8; 8], BackendError> {
        Ok(self.card_crypto)
    }
    fn scp02_host_cryptogram(
        &mut self,
        _s: &Scp02Session,
        _h: &[u8; 8],
        _c: &[u8; 8],
    ) -> Result<[u8; 8], BackendError> {
        Ok(self.host_crypto)
    }
    fn scp02_wrap_command(
        &mut self,
        _s: &mut Scp02Session,
        capdu: &[u8],
    ) -> Result<HVec<u8, CAPDU_MAX>, BackendError> {
        let mut v = HVec::new();
        v.extend_from_slice(capdu)
            .map_err(|()| BackendError::Crypto(Detail::Fixed("")))?;
        Ok(v)
    }
    fn scp02_unwrap_response(
        &mut self,
        _s: &mut Scp02Session,
        rapdu: &[u8],
    ) -> Result<HVec<u8, RAPDU_MAX>, BackendError> {
        let mut v = HVec::new();
        v.extend_from_slice(rapdu)
            .map_err(|()| BackendError::Crypto(Detail::Fixed("")))?;
        Ok(v)
    }
    fn scp02_encrypt_put_key_payload_for_session(
        &mut self,
        _s: &Scp02Session,
        _n: &KeyHandle,
    ) -> Result<HVec<u8, ENC_KEY_BLOCK_MAX>, BackendError> {
        Ok(HVec::new())
    }
    fn scp02_close_session(&mut self, _s: Scp02Session) {}
}

/// Build a synthetic 28-byte SCP02 IU response.
fn iu_bytes(kvn: u8, scp: u8, seq: [u8; 2], challenge: [u8; 6], crypto: [u8; 8]) -> [u8; 28] {
    let mut b = [0u8; 28];
    b[10] = kvn;
    b[11] = scp;
    b[12..14].copy_from_slice(&seq);
    b[14..20].copy_from_slice(&challenge);
    b[20..28].copy_from_slice(&crypto);
    b
}

#[test]
fn iu_command_bytes() {
    let host = [0, 1, 2, 3, 4, 5, 6, 7];
    let apdu = iu_command(0x00, 0x00, &host).unwrap();
    assert_eq!(
        HexSlice(&apdu),
        HexSlice(&[0x80, 0x50, 0x00, 0x00, 0x08, 0, 1, 2, 3, 4, 5, 6, 7, 0x00])
    );
}

#[test]
fn iu_command_carries_key_id_in_p2() {
    let apdu = iu_command(0x20, 0x01, &[0u8; 8]).unwrap();
    assert_eq!(apdu[2], 0x20); // P1 = kvn
    assert_eq!(apdu[3], 0x01); // P2 = key id
}

#[test]
fn parse_valid_iu() {
    let b = iu_bytes(0x01, 0x02, [0x00, 0x05], [9; 6], [0xAA; 8]);
    let iu = parse_iu_response(&b).unwrap();
    assert_eq!(iu.kvn, 0x01);
    assert_eq!(iu.seq_counter, [0x00, 0x05]);
    assert_eq!(iu.card_challenge, [9; 6]);
    assert_eq!(iu.card_cryptogram, [0xAA; 8]);
}

#[test]
fn scp02_parse_rejects_wrong_length() {
    assert!(matches!(
        parse_iu_response(&[0u8; 29]),
        Err(ScllError::ScpProtocolUnsupported)
    ));
}

#[test]
fn parse_rejects_non_scp02() {
    let b = iu_bytes(0x00, 0x03, [0; 2], [0; 6], [0; 8]); // SCP03 id
    assert!(matches!(
        parse_iu_response(&b),
        Err(ScllError::ScpProtocolUnsupported)
    ));
}

#[test]
fn scp02_level_cap_table() {
    // i=0x55 (R-MAC capable): C-MAC+C-DEC survive, R-MAC survives.
    assert_eq!(cap_security_level(0x55, 0x13).unwrap(), 0x13);
    assert_eq!(cap_security_level(0x55, 0x03).unwrap(), 0x03);
    assert_eq!(cap_security_level(0x15, 0x13).unwrap(), 0x13);
    // i without R-MAC capability: R-MAC bit masked off.
    assert_eq!(cap_security_level(0x05, 0x13).unwrap(), 0x03);
    // SCP02 never grants R-ENC (0x20).
    assert_eq!(cap_security_level(0x55, 0x33).unwrap(), 0x13);
    // Requesting only bits the card disallows → error.
    assert!(matches!(
        cap_security_level(0x05, 0x20),
        Err(ScllError::NoCommonSecurityLevel)
    ));
}

#[test]
fn begin_happy_path_builds_external_authenticate() {
    let mut backend = StubBackend {
        card_crypto: [0xAA; 8],
        host_crypto: [0xBB; 8],
    };
    let enc = KeyHandle::new(0);
    let mac = KeyHandle::new(1);
    let dek = KeyHandle::new(2);
    let host = [0u8; 8];
    let iu = iu_bytes(0x00, 0x02, [0x00, 0x01], [9; 6], [0xAA; 8]); // matches card_crypto
    let (state, ea) = begin(&mut backend, &enc, &mac, &dek, 0x55, 0x00, 0x03, &host, &iu).unwrap();
    assert_eq!(state.i_param(), 0x55);
    assert_eq!(state.security_level(), 0x03);
    // EA plaintext: 84 82 <level> 00 08 <host_cryptogram> (stub echoes it).
    assert_eq!(
        HexSlice(&ea),
        HexSlice(&[
            0x84, 0x82, 0x03, 0x00, 0x08, 0xBB, 0xBB, 0xBB, 0xBB, 0xBB, 0xBB, 0xBB, 0xBB
        ])
    );
}

#[test]
fn scp02_begin_rejects_bad_card_cryptogram() {
    let mut backend = StubBackend {
        card_crypto: [0xAA; 8],
        host_crypto: [0xBB; 8],
    };
    let iu = iu_bytes(0x00, 0x02, [0; 2], [9; 6], [0xCC; 8]); // != card_crypto
    let r = begin(
        &mut backend,
        &KeyHandle::new(0),
        &KeyHandle::new(1),
        &KeyHandle::new(2),
        0x55,
        0x00,
        0x03,
        &[0; 8],
        &iu,
    );
    assert!(matches!(r, Err(ScllError::CardCryptogramFail)));
}

#[test]
fn scp02_begin_rejects_kvn_mismatch() {
    let mut backend = StubBackend {
        card_crypto: [0xAA; 8],
        host_crypto: [0xBB; 8],
    };
    let iu = iu_bytes(0x05, 0x02, [0; 2], [9; 6], [0xAA; 8]);
    let r = begin(
        &mut backend,
        &KeyHandle::new(0),
        &KeyHandle::new(1),
        &KeyHandle::new(2),
        0x55,
        0x01,
        0x03,
        &[0; 8],
        &iu,
    );
    assert!(matches!(r, Err(ScllError::KvnMismatch)));
}

#[test]
fn begin_caps_rmac_for_plain_i55() {
    let mut backend = StubBackend {
        card_crypto: [0xAA; 8],
        host_crypto: [0xBB; 8],
    };
    let iu = iu_bytes(0x00, 0x02, [0; 2], [9; 6], [0xAA; 8]);
    let (state, ea) = begin(
        &mut backend,
        &KeyHandle::new(0),
        &KeyHandle::new(1),
        &KeyHandle::new(2),
        0x55,
        0x00,
        0x13,
        &[0; 8],
        &iu,
    )
    .unwrap();
    assert_eq!(state.security_level(), 0x13);
    assert_eq!(ea[2], 0x13); // EA P1 carries the capped level
}
