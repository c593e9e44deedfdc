//! Keys, key check values and randomness.
use vstd::prelude::*;

use crate::backend::{array_result, Event};
use crate::error::BackendError;
use crate::limits::KEY_BYTES_MAX;
use crate::secret::Secret;

verus! {

/// A key that a backend holds, by the index of its slot.
#[derive(Debug, Clone, Copy, PartialEq, Eq, Structural)]
pub struct KeyHandle(pub u16);

impl KeyHandle {
    /// The handle of a slot.
    pub fn new(index: u16) -> (r: KeyHandle)
        ensures
            r == KeyHandle(index),
    {
        KeyHandle(index)
    }

    /// The slot of the handle.
    pub fn index(self) -> (r: u16)
        ensures
            r == self.0,
    {
        self.0
    }
}

/// Algorithm and length of a key.
#[derive(Debug, Clone, Copy, PartialEq, Eq, Structural)]
#[non_exhaustive]
pub enum KeyKind {
    Aes128,
    Aes192,
    Aes256,
    /// Two-key triple DES.
    TripleDesDouble,
}

impl KeyKind {
    /// Length of a key of this kind.
    pub open spec fn len(self) -> nat {
        match self {
            KeyKind::Aes128 => 16,
            KeyKind::Aes192 => 24,
            KeyKind::Aes256 => 32,
            KeyKind::TripleDesDouble => 16,
        }
    }

    /// Length of the key in clear, which PUT KEY carries for AES.
    pub fn clear_len(self) -> (r: usize)
        ensures
            r == self.len(),
    {
        match self {
            KeyKind::Aes192 => 24,
            KeyKind::Aes256 => 32,
            KeyKind::Aes128 => 16,
            KeyKind::TripleDesDouble => 16,
        }
    }
}

/// Key handles, randomness and key check values.
pub trait KeyBackend {
    /// Every recorded call of this backend, oldest first.
    closed spec fn events(&self) -> Seq<Event> {
        arbitrary()
    }

    /// Takes over the raw key `bytes`.
    fn import_key(&mut self, kind: KeyKind, bytes: &[u8]) -> (r: Result<KeyHandle, BackendError>)
        ensures
            final(self).events() == old(self).events().push(
                Event::ImportKey { kind, bytes: bytes@, result: r },
            ),
    ;

    /// Makes a fresh key.
    fn generate_key(&mut self, kind: KeyKind) -> (r: Result<KeyHandle, BackendError>)
        ensures
            final(self).events() == old(self).events().push(Event::GenerateKey { kind, result: r }),
    ;

    /// The three-byte key check value of a key.
    fn compute_kcv(&mut self, h: &KeyHandle) -> (r: Result<[u8; 3], BackendError>)
        ensures
            final(self).events() == old(self).events().push(
                Event::KeyCheckValue { key: *h, result: array_result(r) },
            ),
    ;

    /// Fills `out` with random bytes.
    fn random_bytes(&mut self, out: &mut [u8]) -> (r: Result<(), BackendError>)
        ensures
            final(out)@.len() == old(out)@.len(),
            final(self).events() == old(self).events().push(
                Event::Random {
                    len: old(out)@.len(),
                    result: match r {
                        Ok(_) => Ok(final(out)@),
                        Err(e) => Err(e),
                    },
                },
            ),
    ;

    /// Whether two byte strings are equal, in a time that does not tell where
    /// they differ.
    fn ct_eq(&self, a: &[u8], b: &[u8]) -> (r: bool)
        ensures
            r == (a@ == b@),
    ;
}

/// A key in clear, as a software backend hands it out. It is wiped when it goes out of
/// use, and before that by [`ExportedKey::zeroize`].
pub struct ExportedKey {
    key: Secret,
}

impl View for ExportedKey {
    type V = Seq<u8>;

    closed spec fn view(&self) -> Seq<u8> {
        self.key@
    }
}

impl ExportedKey {
    /// A copy of `src`; nothing where it is longer than any key.
    pub fn from_slice(src: &[u8]) -> (r: Option<ExportedKey>)
        ensures
            match r {
                Some(key) => src@.len() <= KEY_BYTES_MAX && key@ == src@,
                None => src@.len() > KEY_BYTES_MAX,
            },
    {
        match Secret::from_slice(src) {
            Some(key) => Some(ExportedKey { key }),
            None => None,
        }
    }

    /// The key.
    pub fn as_bytes(&self) -> (r: &[u8])
        ensures
            r@ == self@,
    {
        self.key.as_slice()
    }

    /// Wipes the key; nothing is left of it.
    pub fn zeroize(&mut self)
        ensures
            final(self)@.len() == 0,
            final(self).wiped(),
    {
        self.key.wipe();
    }

    /// No byte of the key's buffer is left.
    pub closed spec fn wiped(self) -> bool {
        self.key.wiped()
    }
}

impl core::ops::Deref for ExportedKey {
    type Target = [u8];

    fn deref(&self) -> (r: &[u8])
        ensures
            r@ == self@,
    {
        self.as_bytes()
    }
}

/// A backend whose keys can leave it.
pub trait ExportableKeyBackend: KeyBackend {
    /// The key in clear.
    fn export_key_dangerous(&mut self, h: &KeyHandle) -> (r: Result<ExportedKey, BackendError>)
        ensures
            final(self).events() == old(self).events().push(
                Event::ExportKey {
                    key: *h,
                    result: match r {
                        Ok(k) => Ok(k@),
                        Err(e) => Err(e),
                    },
                },
            ),
    ;
}

} // verus!
