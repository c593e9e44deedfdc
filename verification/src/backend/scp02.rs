//! The SCP02 operations of a backend (GPCS v2.3.1 Appendix E).
use vstd::prelude::*;

use crate::backend::{
    array_result, block_result, capdu_result, rapdu_result, Event, KeyBackend, KeyHandle,
};
use crate::buffers::{Capdu, EncKeyBlock, Rapdu};
use crate::error::BackendError;

verus! {

/// An SCP02 session that a backend holds, by the index of its slot.
#[derive(Debug, Clone, Copy, PartialEq, Eq, Structural)]
pub struct Scp02Session(pub u16);

impl Scp02Session {
    /// The session in a slot.
    pub fn new(index: u16) -> (r: Scp02Session)
        ensures
            r == Scp02Session(index),
    {
        Scp02Session(index)
    }

    /// The slot of the session.
    pub fn index(self) -> (r: u16)
        ensures
            r == self.0,
    {
        self.0
    }
}

/// The SCP02 operations. The card challenge of the cryptograms is eight bytes:
/// the sequence counter and the six-byte challenge of the card.
pub trait Scp02Backend: KeyBackend {
    /// Derives the session keys from the base keys and the sequence counter.
    fn scp02_derive_session(
        &mut self,
        base_enc: &KeyHandle,
        base_mac: &KeyHandle,
        base_dek: &KeyHandle,
        seq_counter: [u8; 2],
    ) -> (r: Result<Scp02Session, BackendError>)
        ensures
            final(self).events() == old(self).events().push(
                Event::Derive02 {
                    enc: *base_enc,
                    mac: *base_mac,
                    dek: *base_dek,
                    counter: seq_counter@,
                    result: r,
                },
            ),
    ;

    /// The cryptogram that the card must have sent.
    fn scp02_card_cryptogram(
        &mut self,
        s: &Scp02Session,
        host_ch: &[u8; 8],
        card_ch: &[u8; 8],
    ) -> (r: Result<[u8; 8], BackendError>)
        ensures
            final(self).events() == old(self).events().push(
                Event::CardCryptogram02 {
                    session: *s,
                    host: host_ch@,
                    card: card_ch@,
                    result: array_result(r),
                },
            ),
    ;

    /// The cryptogram that the host sends.
    fn scp02_host_cryptogram(
        &mut self,
        s: &Scp02Session,
        host_ch: &[u8; 8],
        card_ch: &[u8; 8],
    ) -> (r: Result<[u8; 8], BackendError>)
        ensures
            final(self).events() == old(self).events().push(
                Event::HostCryptogram02 {
                    session: *s,
                    host: host_ch@,
                    card: card_ch@,
                    result: array_result(r),
                },
            ),
    ;

    /// Applies the session's security level to a command.
    fn scp02_wrap_command(&mut self, s: &mut Scp02Session, capdu: &[u8]) -> (r: Result<
        Capdu,
        BackendError,
    >)
        ensures
            final(self).events() == old(self).events().push(
                Event::Wrap02 {
                    session: *old(s),
                    after: *final(s),
                    command: capdu@,
                    result: capdu_result(r),
                },
            ),
    ;

    /// Verifies a response and strips its protection.
    fn scp02_unwrap_response(&mut self, s: &mut Scp02Session, rapdu: &[u8]) -> (r: Result<
        Rapdu,
        BackendError,
    >)
        ensures
            final(self).events() == old(self).events().push(
                Event::Unwrap02 {
                    session: *old(s),
                    after: *final(s),
                    response: rapdu@,
                    result: rapdu_result(r),
                },
            ),
    ;

    /// Encrypts a new key under the key encryption key of the session.
    fn scp02_encrypt_put_key_payload_for_session(
        &mut self,
        s: &Scp02Session,
        new_key: &KeyHandle,
    ) -> (r: Result<EncKeyBlock, BackendError>)
        ensures
            final(self).events() == old(self).events().push(
                Event::EncryptKey02 { session: *s, key: *new_key, result: block_result(r) },
            ),
    ;

    /// Gives the session's slot back.
    fn scp02_close_session(&mut self, s: Scp02Session)
        ensures
            final(self).events() == old(self).events().push(Event::Close02 { session: s }),
    ;
}

} // verus!
