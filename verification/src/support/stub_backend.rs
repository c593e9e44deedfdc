//! A backend without cryptography.
use vstd::prelude::*;

use crate::backend::{
    array_result, block_result, capdu_result, field_result, rapdu_result, Event, KeyBackend,
    KeyHandle, KeyKind, Scp02Backend, Scp02Session, Scp03Backend, Scp03Session, ScpMode,
};
use crate::buffers::{
    block_from_slice, capdu_extend, capdu_new, field_from_slice, rapdu_from_slice, Capdu,
    EncKeyBlock, Field, Rapdu,
};
use crate::bytes::same_bytes;
use crate::error::{BackendError, Detail};
use crate::limits::{CAPDU_MAX, RAPDU_MAX};

verus! {

/// The fixed results of a [`StubBackend`].
pub struct Canned {
    pub card_cryptogram: Seq<u8>,
    pub host_cryptogram: Seq<u8>,
    pub kcv: Seq<u8>,
    pub key_block: Seq<u8>,
    pub pseudo_challenge: Seq<u8>,
}

/// A backend whose results are fixed and which leaves commands and responses as
/// they are.
#[derive(Clone, Copy)]
pub struct StubBackend {
    card_crypto: [u8; 8],
    host_crypto: [u8; 8],
    kcv: [u8; 3],
    enc_block: [u8; 16],
    pseudo_challenge: [u8; 8],
    log: Ghost<Seq<Event>>,
}

/// `n` times the same byte.
pub open spec fn filled(n: nat, byte: u8) -> Seq<u8> {
    Seq::new(n, |i: int| byte)
}

/// The results of a new [`StubBackend`].
pub open spec fn standard_results() -> Canned {
    Canned {
        card_cryptogram: filled(8, 0xAA),
        host_cryptogram: filled(8, 0xBB),
        kcv: seq![0xC0u8, 0xC1, 0xC2],
        key_block: filled(16, 0xE0),
        pseudo_challenge: filled(8, 9),
    }
}

impl StubBackend {
    /// The results that it gives.
    pub closed spec fn canned(self) -> Canned {
        Canned {
            card_cryptogram: self.card_crypto@,
            host_cryptogram: self.host_crypto@,
            kcv: self.kcv@,
            key_block: self.enc_block@,
            pseudo_challenge: self.pseudo_challenge@,
        }
    }

    /// The calls so far.
    pub closed spec fn log_of(self) -> Seq<Event> {
        self.log@
    }

    /// A backend with the standard results.
    pub fn new() -> (r: StubBackend)
        ensures
            r.canned() == standard_results(),
            r.log_of() == Seq::<Event>::empty(),
    {
        let r: StubBackend = StubBackend {
            card_crypto: [0xAA; 8],
            host_crypto: [0xBB; 8],
            kcv: [0xC0, 0xC1, 0xC2],
            enc_block: [0xE0; 16],
            pseudo_challenge: [9; 8],
            log: Ghost(Seq::empty()),
        };
        proof {
            assert(r.card_crypto@ =~= filled(8, 0xAA));
            assert(r.host_crypto@ =~= filled(8, 0xBB));
            assert(r.kcv@ =~= seq![0xC0u8, 0xC1, 0xC2]);
            assert(r.enc_block@ =~= filled(16, 0xE0));
            assert(r.pseudo_challenge@ =~= filled(8, 9));
        }
        r
    }

    /// The card cryptogram.
    pub fn card_cryptogram(&self) -> (r: [u8; 8])
        ensures
            r@ == self.canned().card_cryptogram,
    {
        self.card_crypto
    }

    /// The host cryptogram.
    pub fn host_cryptogram(&self) -> (r: [u8; 8])
        ensures
            r@ == self.canned().host_cryptogram,
    {
        self.host_crypto
    }

    /// The check value of every key.
    pub fn kcv(&self) -> (r: [u8; 3])
        ensures
            r@ == self.canned().kcv,
    {
        self.kcv
    }

    /// Every key, encrypted.
    pub fn encrypted_key_block(&self) -> (r: [u8; 16])
        ensures
            r@ == self.canned().key_block,
    {
        self.enc_block
    }

    /// Gives other cryptograms.
    pub fn with_cryptograms(self, card: [u8; 8], host: [u8; 8]) -> (r: StubBackend)
        ensures
            r.canned() == (Canned { card_cryptogram: card@, host_cryptogram: host@, ..self.canned() }),
            r.log_of() == self.log_of(),
    {
        StubBackend { card_crypto: card, host_crypto: host, ..self }
    }

    /// Gives another card challenge.
    pub fn with_pseudo_challenge(self, challenge: [u8; 8]) -> (r: StubBackend)
        ensures
            r.canned() == (Canned { pseudo_challenge: challenge@, ..self.canned() }),
            r.log_of() == self.log_of(),
    {
        StubBackend { pseudo_challenge: challenge, ..self }
    }
}

impl Default for StubBackend {
    fn default() -> (r: StubBackend)
        ensures
            r.canned() == standard_results(),
            r.log_of() == Seq::<Event>::empty(),
    {
        StubBackend::new()
    }
}

/// The bytes as they are, where they fit.
pub open spec fn echoed(bytes: Seq<u8>, max: nat) -> Result<Seq<u8>, BackendError> {
    if bytes.len() <= max {
        Ok(bytes)
    } else {
        Err(BackendError::Crypto(Detail::Fixed("")))
    }
}

fn echo_capdu(bytes: &[u8]) -> (r: Result<Capdu, BackendError>)
    ensures
        capdu_result(r) == echoed(bytes@, CAPDU_MAX as nat),
{
    let mut v: Capdu = capdu_new();
    match capdu_extend(&mut v, bytes) {
        Ok(()) => {
            assert(Seq::<u8>::empty() + bytes@ =~= bytes@);
            Ok(v)
        },
        Err(_) => Err(BackendError::Crypto(Detail::Fixed(""))),
    }
}

fn echo_rapdu(bytes: &[u8]) -> (r: Result<Rapdu, BackendError>)
    ensures
        rapdu_result(r) == echoed(bytes@, RAPDU_MAX as nat),
{
    match rapdu_from_slice(bytes) {
        Ok(v) => Ok(v),
        Err(_) => Err(BackendError::Crypto(Detail::Fixed(""))),
    }
}

fn field_of(bytes: &[u8; 8]) -> (r: Result<Field, BackendError>)
    ensures
        field_result(r) == Ok::<Seq<u8>, BackendError>(bytes@),
{
    match field_from_slice(bytes) {
        Ok(v) => Ok(v),
        Err(_) => Err(BackendError::Crypto(Detail::Fixed(""))),
    }
}

fn block_of_key(bytes: &[u8; 16]) -> (r: Result<EncKeyBlock, BackendError>)
    ensures
        block_result(r) == Ok::<Seq<u8>, BackendError>(bytes@),
{
    match block_from_slice(bytes) {
        Ok(v) => Ok(v),
        Err(_) => Err(BackendError::Crypto(Detail::Fixed(""))),
    }
}

impl KeyBackend for StubBackend {
    open spec fn events(&self) -> Seq<Event> {
        self.log_of()
    }

    fn import_key(&mut self, kind: KeyKind, bytes: &[u8]) -> (r: Result<KeyHandle, BackendError>)
        ensures
            r == Ok::<KeyHandle, BackendError>(KeyHandle(0)),
            final(self).canned() == old(self).canned(),
    {
        let r: Result<KeyHandle, BackendError> = Ok(KeyHandle::new(0));
        self.log = Ghost(self.log@.push(Event::ImportKey { kind, bytes: bytes@, result: r }));
        r
    }

    fn generate_key(&mut self, kind: KeyKind) -> (r: Result<KeyHandle, BackendError>)
        ensures
            r == Ok::<KeyHandle, BackendError>(KeyHandle(0)),
            final(self).canned() == old(self).canned(),
    {
        let r: Result<KeyHandle, BackendError> = Ok(KeyHandle::new(0));
        self.log = Ghost(self.log@.push(Event::GenerateKey { kind, result: r }));
        r
    }

    fn compute_kcv(&mut self, h: &KeyHandle) -> (r: Result<[u8; 3], BackendError>)
        ensures
            array_result(r) == Ok::<Seq<u8>, BackendError>(old(self).canned().kcv),
            final(self).canned() == old(self).canned(),
    {
        let r: Result<[u8; 3], BackendError> = Ok(self.kcv);
        self.log = Ghost(
            self.log@.push(Event::KeyCheckValue { key: *h, result: array_result(r) }),
        );
        r
    }

    fn random_bytes(&mut self, out: &mut [u8]) -> (r: Result<(), BackendError>)
        ensures
            r is Ok,
            final(out)@ == filled(old(out)@.len(), 0),
            final(self).canned() == old(self).canned(),
    {
        let mut i: usize = 0;
        while i < out.len()
            invariant
                i <= out.len(),
                out@.len() == old(out)@.len(),
                forall|k: int| 0 <= k < i ==> out@[k] == 0,
            decreases out.len() - i,
        {
            out[i] = 0;
            i = i + 1;
        }
        assert(out@ =~= filled(old(out)@.len(), 0));
        let r: Result<(), BackendError> = Ok(());
        self.log = Ghost(
            self.log@.push(Event::Random { len: old(out)@.len(), result: Ok(out@) }),
        );
        r
    }

    fn ct_eq(&self, a: &[u8], b: &[u8]) -> (r: bool) {
        same_bytes(a, b)
    }
}

impl Scp03Backend for StubBackend {
    fn scp03_derive_session(
        &mut self,
        static_enc: &KeyHandle,
        static_mac: &KeyHandle,
        mode: ScpMode,
        host_challenge: &[u8],
        card_challenge: &[u8],
    ) -> (r: Result<Scp03Session, BackendError>)
        ensures
            r == Ok::<Scp03Session, BackendError>(Scp03Session(0)),
            final(self).canned() == old(self).canned(),
    {
        let r: Result<Scp03Session, BackendError> = Ok(Scp03Session::new(0));
        self.log = Ghost(
            self.log@.push(
                Event::Derive03 {
                    enc: *static_enc,
                    mac: *static_mac,
                    mode,
                    host: host_challenge@,
                    card: card_challenge@,
                    result: r,
                },
            ),
        );
        r
    }

    fn scp03_card_cryptogram(&mut self, s: &Scp03Session, host_ch: &[u8], card_ch: &[u8]) -> (r:
        Result<Field, BackendError>)
        ensures
            field_result(r) == Ok::<Seq<u8>, BackendError>(old(self).canned().card_cryptogram),
            final(self).canned() == old(self).canned(),
    {
        let r: Result<Field, BackendError> = field_of(&self.card_crypto);
        self.log = Ghost(
            self.log@.push(
                Event::CardCryptogram03 {
                    session: *s,
                    host: host_ch@,
                    card: card_ch@,
                    result: field_result(r),
                },
            ),
        );
        r
    }

    fn scp03_host_cryptogram(&mut self, s: &Scp03Session, host_ch: &[u8], card_ch: &[u8]) -> (r:
        Result<Field, BackendError>)
        ensures
            field_result(r) == Ok::<Seq<u8>, BackendError>(old(self).canned().host_cryptogram),
            final(self).canned() == old(self).canned(),
    {
        let r: Result<Field, BackendError> = field_of(&self.host_crypto);
        self.log = Ghost(
            self.log@.push(
                Event::HostCryptogram03 {
                    session: *s,
                    host: host_ch@,
                    card: card_ch@,
                    result: field_result(r),
                },
            ),
        );
        r
    }

    fn scp03_pseudo_card_challenge(
        &mut self,
        static_enc: &KeyHandle,
        mode: ScpMode,
        seq_counter: &[u8; 3],
        invoker_aid: &[u8],
    ) -> (r: Result<Field, BackendError>)
        ensures
            field_result(r) == Ok::<Seq<u8>, BackendError>(old(self).canned().pseudo_challenge),
            final(self).canned() == old(self).canned(),
    {
        let r: Result<Field, BackendError> = field_of(&self.pseudo_challenge);
        self.log = Ghost(
            self.log@.push(
                Event::CardChallenge03 {
                    enc: *static_enc,
                    mode,
                    counter: seq_counter@,
                    aid: invoker_aid@,
                    result: field_result(r),
                },
            ),
        );
        r
    }

    fn scp03_wrap_command(&mut self, s: &mut Scp03Session, capdu: &[u8]) -> (r: Result<
        Capdu,
        BackendError,
    >)
        ensures
            capdu_result(r) == echoed(capdu@, CAPDU_MAX as nat),
            *final(s) == *old(s),
            final(self).canned() == old(self).canned(),
    {
        let r: Result<Capdu, BackendError> = echo_capdu(capdu);
        self.log = Ghost(
            self.log@.push(
                Event::Wrap03 {
                    session: *s,
                    after: *s,
                    command: capdu@,
                    result: capdu_result(r),
                },
            ),
        );
        r
    }

    fn scp03_unwrap_response(&mut self, s: &mut Scp03Session, rapdu: &[u8]) -> (r: Result<
        Rapdu,
        BackendError,
    >)
        ensures
            rapdu_result(r) == echoed(rapdu@, RAPDU_MAX as nat),
            *final(s) == *old(s),
            final(self).canned() == old(self).canned(),
    {
        let r: Result<Rapdu, BackendError> = echo_rapdu(rapdu);
        self.log = Ghost(
            self.log@.push(
                Event::Unwrap03 {
                    session: *s,
                    after: *s,
                    response: rapdu@,
                    result: rapdu_result(r),
                },
            ),
        );
        r
    }

    fn scp03_encrypt_put_key_payload(&mut self, dek: &KeyHandle, new_key: &KeyHandle) -> (r: Result<
        EncKeyBlock,
        BackendError,
    >)
        ensures
            block_result(r) == Ok::<Seq<u8>, BackendError>(old(self).canned().key_block),
            final(self).canned() == old(self).canned(),
    {
        let r: Result<EncKeyBlock, BackendError> = block_of_key(&self.enc_block);
        self.log = Ghost(
            self.log@.push(
                Event::EncryptKey03 { dek: *dek, key: *new_key, result: block_result(r) },
            ),
        );
        r
    }

    fn scp03_close_session(&mut self, s: Scp03Session)
        ensures
            final(self).canned() == old(self).canned(),
    {
        self.log = Ghost(self.log@.push(Event::Close03 { session: s }));
    }
}

impl Scp02Backend for StubBackend {
    fn scp02_derive_session(
        &mut self,
        base_enc: &KeyHandle,
        base_mac: &KeyHandle,
        base_dek: &KeyHandle,
        seq_counter: [u8; 2],
    ) -> (r: Result<Scp02Session, BackendError>)
        ensures
            r == Ok::<Scp02Session, BackendError>(Scp02Session(0)),
            final(self).canned() == old(self).canned(),
    {
        let r: Result<Scp02Session, BackendError> = Ok(Scp02Session::new(0));
        self.log = Ghost(
            self.log@.push(
                Event::Derive02 {
                    enc: *base_enc,
                    mac: *base_mac,
                    dek: *base_dek,
                    counter: seq_counter@,
                    result: r,
                },
            ),
        );
        r
    }

    fn scp02_card_cryptogram(
        &mut self,
        s: &Scp02Session,
        host_ch: &[u8; 8],
        card_ch: &[u8; 8],
    ) -> (r: Result<[u8; 8], BackendError>)
        ensures
            array_result(r) == Ok::<Seq<u8>, BackendError>(old(self).canned().card_cryptogram),
            final(self).canned() == old(self).canned(),
    {
        let r: Result<[u8; 8], BackendError> = Ok(self.card_crypto);
        self.log = Ghost(
            self.log@.push(
                Event::CardCryptogram02 {
                    session: *s,
                    host: host_ch@,
                    card: card_ch@,
                    result: array_result(r),
                },
            ),
        );
        r
    }

    fn scp02_host_cryptogram(
        &mut self,
        s: &Scp02Session,
        host_ch: &[u8; 8],
        card_ch: &[u8; 8],
    ) -> (r: Result<[u8; 8], BackendError>)
        ensures
            array_result(r) == Ok::<Seq<u8>, BackendError>(old(self).canned().host_cryptogram),
            final(self).canned() == old(self).canned(),
    {
        let r: Result<[u8; 8], BackendError> = Ok(self.host_crypto);
        self.log = Ghost(
            self.log@.push(
                Event::HostCryptogram02 {
                    session: *s,
                    host: host_ch@,
                    card: card_ch@,
                    result: array_result(r),
                },
            ),
        );
        r
    }

    fn scp02_wrap_command(&mut self, s: &mut Scp02Session, capdu: &[u8]) -> (r: Result<
        Capdu,
        BackendError,
    >)
        ensures
            capdu_result(r) == echoed(capdu@, CAPDU_MAX as nat),
            *final(s) == *old(s),
            final(self).canned() == old(self).canned(),
    {
        let r: Result<Capdu, BackendError> = echo_capdu(capdu);
        self.log = Ghost(
            self.log@.push(
                Event::Wrap02 {
                    session: *s,
                    after: *s,
                    command: capdu@,
                    result: capdu_result(r),
                },
            ),
        );
        r
    }

    fn scp02_unwrap_response(&mut self, s: &mut Scp02Session, rapdu: &[u8]) -> (r: Result<
        Rapdu,
        BackendError,
    >)
        ensures
            rapdu_result(r) == echoed(rapdu@, RAPDU_MAX as nat),
            *final(s) == *old(s),
            final(self).canned() == old(self).canned(),
    {
        let r: Result<Rapdu, BackendError> = echo_rapdu(rapdu);
        self.log = Ghost(
            self.log@.push(
                Event::Unwrap02 {
                    session: *s,
                    after: *s,
                    response: rapdu@,
                    result: rapdu_result(r),
                },
            ),
        );
        r
    }

    fn scp02_encrypt_put_key_payload_for_session(
        &mut self,
        s: &Scp02Session,
        new_key: &KeyHandle,
    ) -> (r: Result<EncKeyBlock, BackendError>)
        ensures
            block_result(r) == Ok::<Seq<u8>, BackendError>(old(self).canned().key_block),
            final(self).canned() == old(self).canned(),
    {
        let r: Result<EncKeyBlock, BackendError> = block_of_key(&self.enc_block);
        self.log = Ghost(
            self.log@.push(
                Event::EncryptKey02 { session: *s, key: *new_key, result: block_result(r) },
            ),
        );
        r
    }

    fn scp02_close_session(&mut self, s: Scp02Session)
        ensures
            final(self).canned() == old(self).canned(),
    {
        self.log = Ghost(self.log@.push(Event::Close02 { session: s }));
    }
}

} // verus!
