//! The SCP03 operations of a backend (GPC Amendment D).
use vstd::prelude::*;

use crate::backend::{
    block_result, capdu_result, field_result, rapdu_result, Event, KeyBackend, KeyHandle,
};
use crate::buffers::{Capdu, EncKeyBlock, Field, Rapdu};
use crate::error::BackendError;

verus! {

/// Width of challenges, cryptograms and appended MACs (Amendment D §5.1).
#[derive(Debug, Clone, Copy, PartialEq, Eq, Structural)]
pub enum ScpMode {
    /// Eight bytes; MACs are cut to eight bytes.
    S8,
    /// Sixteen bytes; MACs are sent whole.
    S16,
}

impl ScpMode {
    /// The mode that an option byte selects: bit `08` is set for [`ScpMode::S16`].
    pub open spec fn of(i_param: u8) -> ScpMode {
        if i_param & 0x08 != 0 {
            ScpMode::S16
        } else {
            ScpMode::S8
        }
    }

    /// Width in bytes.
    pub open spec fn width(self) -> nat {
        match self {
            ScpMode::S8 => 8,
            ScpMode::S16 => 16,
        }
    }

    /// The mode that an option byte selects.
    pub fn from_i(i_param: u8) -> (r: ScpMode)
        ensures
            r == ScpMode::of(i_param),
    {
        if i_param & 0x08 != 0 {
            ScpMode::S16
        } else {
            ScpMode::S8
        }
    }

    /// Length of a challenge or cryptogram.
    pub fn field_len(self) -> (r: usize)
        ensures
            r == self.width(),
    {
        match self {
            ScpMode::S8 => 8,
            ScpMode::S16 => 16,
        }
    }

    /// Length of an appended MAC.
    pub fn mac_len(self) -> (r: usize)
        ensures
            r == self.width(),
    {
        self.field_len()
    }

    /// Length of a derived challenge or cryptogram in bits.
    pub fn l_bits(self) -> (r: u16)
        ensures
            r == 8 * self.width(),
    {
        match self {
            ScpMode::S8 => 0x0040,
            ScpMode::S16 => 0x0080,
        }
    }
}

/// An SCP03 session that a backend holds, by the index of its slot.
#[derive(Debug, Clone, Copy, PartialEq, Eq, Structural)]
pub struct Scp03Session(pub u16);

impl Scp03Session {
    /// The session in a slot.
    pub fn new(index: u16) -> (r: Scp03Session)
        ensures
            r == Scp03Session(index),
    {
        Scp03Session(index)
    }

    /// The slot of the session.
    pub fn index(self) -> (r: u16)
        ensures
            r == self.0,
    {
        self.0
    }
}

/// The SCP03 operations.
pub trait Scp03Backend: KeyBackend {
    /// Derives the session keys from the static keys and the two challenges.
    fn scp03_derive_session(
        &mut self,
        static_enc: &KeyHandle,
        static_mac: &KeyHandle,
        mode: ScpMode,
        host_challenge: &[u8],
        card_challenge: &[u8],
    ) -> (r: Result<Scp03Session, BackendError>)
        ensures
            final(self).events() == old(self).events().push(
                Event::Derive03 {
                    enc: *static_enc,
                    mac: *static_mac,
                    mode,
                    host: host_challenge@,
                    card: card_challenge@,
                    result: r,
                },
            ),
    ;

    /// The cryptogram that the card must have sent.
    fn scp03_card_cryptogram(&mut self, s: &Scp03Session, host_ch: &[u8], card_ch: &[u8]) -> (r:
        Result<Field, BackendError>)
        ensures
            final(self).events() == old(self).events().push(
                Event::CardCryptogram03 {
                    session: *s,
                    host: host_ch@,
                    card: card_ch@,
                    result: field_result(r),
                },
            ),
    ;

    /// The cryptogram that the host sends.
    fn scp03_host_cryptogram(&mut self, s: &Scp03Session, host_ch: &[u8], card_ch: &[u8]) -> (r:
        Result<Field, BackendError>)
        ensures
            final(self).events() == old(self).events().push(
                Event::HostCryptogram03 {
                    session: *s,
                    host: host_ch@,
                    card: card_ch@,
                    result: field_result(r),
                },
            ),
    ;

    /// The card challenge that follows from a sequence counter.
    fn scp03_pseudo_card_challenge(
        &mut self,
        static_enc: &KeyHandle,
        mode: ScpMode,
        seq_counter: &[u8; 3],
        invoker_aid: &[u8],
    ) -> (r: Result<Field, BackendError>)
        ensures
            final(self).events() == old(self).events().push(
                Event::CardChallenge03 {
                    enc: *static_enc,
                    mode,
                    counter: seq_counter@,
                    aid: invoker_aid@,
                    result: field_result(r),
                },
            ),
    ;

    /// Applies the session's security level to a command.
    fn scp03_wrap_command(&mut self, s: &mut Scp03Session, capdu: &[u8]) -> (r: Result<
        Capdu,
        BackendError,
    >)
        ensures
            final(self).events() == old(self).events().push(
                Event::Wrap03 {
                    session: *old(s),
                    after: *final(s),
                    command: capdu@,
                    result: capdu_result(r),
                },
            ),
    ;

    /// Verifies a response and strips its protection.
    fn scp03_unwrap_response(&mut self, s: &mut Scp03Session, rapdu: &[u8]) -> (r: Result<
        Rapdu,
        BackendError,
    >)
        ensures
            final(self).events() == old(self).events().push(
                Event::Unwrap03 {
                    session: *old(s),
                    after: *final(s),
                    response: rapdu@,
                    result: rapdu_result(r),
                },
            ),
    ;

    /// Encrypts a new key under the static key encryption key.
    fn scp03_encrypt_put_key_payload(&mut self, dek: &KeyHandle, new_key: &KeyHandle) -> (r: Result<
        EncKeyBlock,
        BackendError,
    >)
        ensures
            final(self).events() == old(self).events().push(
                Event::EncryptKey03 { dek: *dek, key: *new_key, result: block_result(r) },
            ),
    ;

    /// Gives the session's slot back.
    fn scp03_close_session(&mut self, s: Scp03Session)
        ensures
            final(self).events() == old(self).events().push(Event::Close03 { session: s }),
    ;
}

} // verus!
