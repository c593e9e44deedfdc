//! The software backend as a store of keys and sessions.
use scll::backend::{
    ExportableKeyBackend, ExportedKey, KeyBackend, KeyHandle, KeyKind, Scp02Backend, Scp02Session,
    Scp03Backend, Scp03Session, ScpMode,
};
use scll::error::BackendError;
use scll::limits::KEY_BYTES_MAX;
use scll::rustcrypto::{RandomSource, RustCryptoBackend, MAX_KEY_SLOTS};
use scll::secret::Secret;
use scll::support::CountingSource;

/// The same byte over and over.
struct Same(u8);

impl RandomSource for Same {
    fn fill_bytes(&mut self, out: &mut [u8]) {
        out.fill(self.0);
    }
}

fn backend() -> RustCryptoBackend<Same> {
    RustCryptoBackend::new(Same(0x5A))
}

#[test]
fn secrets_are_wiped() {
    let mut secret = Secret::from_slice(&[1, 2, 3]).unwrap();
    assert_eq!(secret.as_slice(), &[1, 2, 3]);
    secret.wipe();
    assert!(secret.as_slice().is_empty());
    assert!(Secret::from_slice(&[7; KEY_BYTES_MAX]).is_some());
    assert!(Secret::from_slice(&[7; KEY_BYTES_MAX + 1]).is_none());
    let mut key = ExportedKey::from_slice(&[9; 16]).unwrap();
    assert_eq!(key.as_bytes(), &[9; 16]);
    key.zeroize();
    assert!(key.as_bytes().is_empty());
    assert!(ExportedKey::from_slice(&[9; KEY_BYTES_MAX + 1]).is_none());
}

#[test]
fn keys_are_found_under_their_handles() {
    let mut b = backend();
    let a = b.import_key(KeyKind::Aes128, &[1; 16]).unwrap();
    let c = b.import_key(KeyKind::Aes256, &[2; 32]).unwrap();
    let d = b.import_key(KeyKind::TripleDesDouble, &[3; 16]).unwrap();
    assert_eq!(b.export_key_dangerous(&a).unwrap().as_bytes(), &[1; 16]);
    assert_eq!(b.export_key_dangerous(&c).unwrap().as_bytes(), &[2; 32]);
    assert_eq!(b.export_key_dangerous(&d).unwrap().as_bytes(), &[3; 16]);
    let g = b.generate_key(KeyKind::Aes192).unwrap();
    assert_eq!(b.export_key_dangerous(&g).unwrap().as_bytes(), &[0x5A; 24]);
    let mut bytes = [0u8; 5];
    b.random_bytes(&mut bytes).unwrap();
    assert_eq!(bytes, [0x5A; 5]);
}

#[test]
fn keys_of_the_wrong_length_are_refused() {
    let mut b = backend();
    for (kind, len) in [
        (KeyKind::Aes128, 15),
        (KeyKind::Aes192, 16),
        (KeyKind::Aes256, 33),
        (KeyKind::TripleDesDouble, 24),
    ] {
        let r = b.import_key(kind, &vec![0; len]);
        assert!(matches!(r, Err(BackendError::KeyImport(_))));
    }
    let unknown = KeyHandle::new(0);
    assert!(matches!(b.compute_kcv(&unknown), Err(BackendError::Crypto(_))));
    assert!(matches!(b.export_key_dangerous(&unknown), Err(BackendError::Crypto(_))));
}

#[test]
fn a_full_table_takes_no_key() {
    let mut b = backend();
    for i in 0..MAX_KEY_SLOTS {
        let h = b.import_key(KeyKind::Aes128, &[i as u8; 16]).unwrap();
        assert_eq!(h.index() as usize, i);
    }
    assert!(matches!(
        b.import_key(KeyKind::Aes128, &[0; 16]),
        Err(BackendError::KeyImport(_))
    ));
    assert!(matches!(b.generate_key(KeyKind::Aes128), Err(BackendError::KeyGen(_))));
    let last = KeyHandle::new(MAX_KEY_SLOTS as u16 - 1);
    assert_eq!(
        b.export_key_dangerous(&last).unwrap().as_bytes(),
        &[MAX_KEY_SLOTS as u8 - 1; 16]
    );
}

#[test]
fn sessions_do_not_disturb_each_other() {
    let mut b = backend();
    let k = b.import_key(KeyKind::Aes128, &[0x40; 16]).unwrap();
    let first = b.scp03_derive_session(&k, &k, ScpMode::S8, &[1; 8], &[2; 8]).unwrap();
    let second = b.scp03_derive_session(&k, &k, ScpMode::S8, &[3; 8], &[4; 8]).unwrap();
    let before = b.scp03_host_cryptogram(&second, &[3; 8], &[4; 8]).unwrap();
    b.scp03_close_session(first);
    assert!(b.scp03_host_cryptogram(&first, &[1; 8], &[2; 8]).is_err());
    assert_eq!(
        b.scp03_host_cryptogram(&second, &[3; 8], &[4; 8]).unwrap().as_slice(),
        before.as_slice()
    );
    let third = b.scp03_derive_session(&k, &k, ScpMode::S8, &[5; 8], &[6; 8]).unwrap();
    assert_eq!(third, first);
}

#[test]
fn nothing_goes_before_authentication() {
    let mut b = backend();
    let aes = b.import_key(KeyKind::Aes128, &[0x40; 16]).unwrap();
    let des = b.import_key(KeyKind::TripleDesDouble, &[0x40; 16]).unwrap();
    let mut s3 = b.scp03_derive_session(&aes, &aes, ScpMode::S8, &[1; 8], &[2; 8]).unwrap();
    let mut s2 = b.scp02_derive_session(&des, &des, &des, [0, 1]).unwrap();
    let status = [0x80, 0xF2, 0x80, 0x02];
    assert!(b.scp03_wrap_command(&mut s3, &status).is_err());
    assert!(b.scp02_wrap_command(&mut s2, &status).is_err());
    assert!(b.scp03_unwrap_response(&mut s3, &[0x90, 0x00]).is_err());
    assert!(b.scp02_unwrap_response(&mut s2, &[0x90, 0x00]).is_err());
    let mut nowhere3 = Scp03Session::new(99);
    let mut nowhere2 = Scp02Session::new(99);
    assert!(b.scp03_wrap_command(&mut nowhere3, &status).is_err());
    assert!(b.scp02_wrap_command(&mut nowhere2, &status).is_err());
}

#[test]
fn keys_of_the_wrong_protocol_open_no_session() {
    let mut b = backend();
    let aes = b.import_key(KeyKind::Aes128, &[0x40; 16]).unwrap();
    let des = b.import_key(KeyKind::TripleDesDouble, &[0x40; 16]).unwrap();
    assert!(b.scp03_derive_session(&des, &aes, ScpMode::S8, &[1; 8], &[2; 8]).is_err());
    assert!(b.scp02_derive_session(&des, &des, &aes, [0, 1]).is_err());
}

#[test]
fn command_macs_are_chained() {
    let run = |first: u8| {
        let mut b = backend();
        let k = b.import_key(KeyKind::Aes128, &[0x40; 16]).unwrap();
        let mut s = b.scp03_derive_session(&k, &k, ScpMode::S8, &[1; 8], &[2; 8]).unwrap();
        let ea = [0x84, 0x82, 0x01, 0x00, 0x01, first];
        let one = b.scp03_wrap_command(&mut s, &ea).unwrap();
        let two = b.scp03_wrap_command(&mut s, &[0x80, 0xF2, 0x80, 0x02]).unwrap();
        (one.as_slice().to_vec(), two.as_slice().to_vec())
    };
    let (one, two) = run(0x00);
    assert_eq!(&one[..6], &[0x84, 0x82, 0x01, 0x00, 0x09, 0x00]);
    assert_eq!(one.len(), 14);
    assert_eq!(&two[..5], &[0x84, 0xF2, 0x80, 0x02, 0x08]);
    assert_eq!(two.len(), 13);
    let (_, other) = run(0x01);
    assert_eq!(&two[..5], &other[..5]);
    assert_ne!(&two[5..], &other[5..]);
    assert_eq!(run(0x00).1, two);
}

#[test]
fn an_exported_key_can_be_used_as_its_bytes() {
    let key = ExportedKey::from_slice(&[9, 8, 7]).unwrap();
    assert_eq!(key.as_bytes(), &[9, 8, 7]);
    assert_eq!(&*key, &[9, 8, 7]);
    assert_eq!(key.len(), 3);
}

#[test]
fn randomness_fills_what_it_is_given() {
    let mut b = backend();
    let mut out = [0u8; 40];
    b.random_bytes(&mut out).unwrap();
    assert_eq!(out, [0x5A; 40]);
    let h = b.generate_key(KeyKind::Aes256).unwrap();
    assert_eq!(b.export_key_dangerous(&h).unwrap().as_bytes(), &[0x5A; 32]);
}

#[test]
fn keys_and_random_bytes_are_what_the_source_gives_next() {
    let mut b = RustCryptoBackend::new(CountingSource::new(0));
    let mut out = [0u8; 3];
    b.random_bytes(&mut out).unwrap();
    assert_eq!(out, [1, 2, 3]);

    let h = b.generate_key(KeyKind::Aes128).unwrap();
    let drawn: Vec<u8> = (4..=19).collect();
    assert_eq!(b.export_key_dangerous(&h).unwrap().as_bytes(), &drawn[..]);

    // Nothing else draws.
    let k = b.import_key(KeyKind::Aes128, &[0x40; 16]).unwrap();
    b.compute_kcv(&k).unwrap();
    b.scp03_derive_session(&k, &k, ScpMode::S8, &[1; 8], &[2; 8])
        .unwrap();
    b.random_bytes(&mut out).unwrap();
    assert_eq!(out, [20, 21, 22]);
}

#[test]
fn protected_commands_have_the_length_of_their_parts() {
    let mut b = backend();
    let k = b.import_key(KeyKind::Aes192, &[0x40; 24]).unwrap();
    let authenticate = |level: u8| {
        let mut v = vec![0x84, 0x82, level, 0x00, 0x08];
        v.extend_from_slice(&[0xBB; 8]);
        v
    };
    let command = [0x80, 0xF2, 0x80, 0x02, 0x05, 1, 2, 3, 4, 5, 0x00];
    for (mode, field, width) in [(ScpMode::S8, vec![1; 8], 8), (ScpMode::S16, vec![1; 16], 16)] {
        let mut s = b.scp03_derive_session(&k, &k, mode, &field, &field).unwrap();
        let first = b.scp03_wrap_command(&mut s, &authenticate(0x03)).unwrap();
        assert_eq!(first.len(), 5 + 8 + width);
        let out = b.scp03_wrap_command(&mut s, &command).unwrap();
        assert_eq!(out.len(), 5 + 16 + width + 1);
        assert_eq!(out[4] as usize, 16 + width);
        assert_eq!(out[..4], [0x84, 0xF2, 0x80, 0x02]);
        let bare = b.scp03_wrap_command(&mut s, &command[..4]).unwrap();
        assert_eq!(bare.len(), 5 + width);
        b.scp03_close_session(s);
    }
    let k = b.import_key(KeyKind::TripleDesDouble, &[0x41; 16]).unwrap();
    let mut s = b.scp02_derive_session(&k, &k, &k, [0, 1]).unwrap();
    assert_eq!(b.scp02_wrap_command(&mut s, &authenticate(0x03)).unwrap().len(), 5 + 8 + 8);
    let out = b.scp02_wrap_command(&mut s, &command).unwrap();
    assert_eq!(out.len(), 5 + 8 + 8);
    assert_eq!(out[4], 16);
    assert_eq!(b.scp02_wrap_command(&mut s, &command[..4]).unwrap().len(), 5 + 8);
}

#[test]
fn a_key_payload_takes_keys_of_its_protocol() {
    let mut b = backend();
    let aes = b.import_key(KeyKind::Aes128, &[0x40; 16]).unwrap();
    let des = b.import_key(KeyKind::TripleDesDouble, &[0x41; 16]).unwrap();
    let none = KeyHandle::new(9);
    assert!(b.scp03_encrypt_put_key_payload(&aes, &aes).is_ok());
    for (dek, new) in [(des, aes), (aes, des)] {
        assert!(matches!(
            b.scp03_encrypt_put_key_payload(&dek, &new),
            Err(BackendError::Unsupported(_))
        ));
    }
    for (dek, new) in [(none, aes), (aes, none)] {
        assert!(matches!(
            b.scp03_encrypt_put_key_payload(&dek, &new),
            Err(BackendError::Crypto(_))
        ));
    }
    let s = b.scp02_derive_session(&des, &des, &des, [0, 1]).unwrap();
    assert!(b.scp02_encrypt_put_key_payload_for_session(&s, &des).is_ok());
    assert!(matches!(
        b.scp02_encrypt_put_key_payload_for_session(&s, &aes),
        Err(BackendError::Unsupported(_))
    ));
    assert!(matches!(
        b.scp02_encrypt_put_key_payload_for_session(&s, &none),
        Err(BackendError::Crypto(_))
    ));
    b.scp02_close_session(s);
    assert!(matches!(
        b.scp02_encrypt_put_key_payload_for_session(&s, &des),
        Err(BackendError::Unsupported(_))
    ));
}

#[test]
fn the_largest_load_block_can_be_protected() {
    let mut b = backend();
    let k = b.import_key(KeyKind::Aes256, &[0x40; 32]).unwrap();
    let mut s = b.scp03_derive_session(&k, &k, ScpMode::S16, &[1; 16], &[2; 16]).unwrap();
    let mut authenticate = vec![0x84, 0x82, 0x33, 0x00, 0x10];
    authenticate.extend_from_slice(&[0xBB; 16]);
    b.scp03_wrap_command(&mut s, &authenticate).unwrap();
    let full = scll::command::load::load_block(0, false, &[7; 223]).unwrap();
    let out = b.scp03_wrap_command(&mut s, full.as_slice()).unwrap();
    assert_eq!(out.len(), 5 + 224 + 16 + 1);
    let more = scll::command::load::load_block(0, false, &[7; 224]).unwrap();
    assert!(matches!(b.scp03_wrap_command(&mut s, more.as_slice()), Err(BackendError::Crypto(_))));
}

#[test]
fn counting_starts_over_behind_the_last_byte() {
    let mut source = CountingSource::new(254);
    let mut out = [0u8; 3];
    source.fill_bytes(&mut out);
    assert_eq!(out, [255, 0, 1]);
    source.fill_bytes(&mut out[..1]);
    assert_eq!(out[0], 2);
}
