//! What the library asks of a cryptographic backend.
//!
//! A backend is implemented by the user of the library; [`crate::rustcrypto`]
//! is one. Nothing is promised of what a call returns. Every call and its result
//! is recorded in the backend's history, over which the contracts of the callers
//! say what was asked and what was made of the answers.
use vstd::prelude::*;

mod key;
mod scp02;
mod scp03;

pub use key::{ExportableKeyBackend, ExportedKey, KeyBackend, KeyHandle, KeyKind};
pub use scp02::{Scp02Backend, Scp02Session};
pub use scp03::{Scp03Backend, Scp03Session, ScpMode};

use crate::buffers::{block_bytes, capdu_bytes, field_bytes, rapdu_bytes};
use crate::buffers::{Capdu, EncKeyBlock, Field, Rapdu};
use crate::error::BackendError;

verus! {

/// A call of a backend method and what came back.
#[allow(inconsistent_fields)]
pub enum Event {
    ImportKey { kind: KeyKind, bytes: Seq<u8>, result: Result<KeyHandle, BackendError> },
    GenerateKey { kind: KeyKind, result: Result<KeyHandle, BackendError> },
    KeyCheckValue { key: KeyHandle, result: Result<Seq<u8>, BackendError> },
    Random { len: nat, result: Result<Seq<u8>, BackendError> },
    ExportKey { key: KeyHandle, result: Result<Seq<u8>, BackendError> },
    Derive03 {
        enc: KeyHandle,
        mac: KeyHandle,
        mode: ScpMode,
        host: Seq<u8>,
        card: Seq<u8>,
        result: Result<Scp03Session, BackendError>,
    },
    CardCryptogram03 {
        session: Scp03Session,
        host: Seq<u8>,
        card: Seq<u8>,
        result: Result<Seq<u8>, BackendError>,
    },
    HostCryptogram03 {
        session: Scp03Session,
        host: Seq<u8>,
        card: Seq<u8>,
        result: Result<Seq<u8>, BackendError>,
    },
    CardChallenge03 {
        enc: KeyHandle,
        mode: ScpMode,
        counter: Seq<u8>,
        aid: Seq<u8>,
        result: Result<Seq<u8>, BackendError>,
    },
    Wrap03 {
        session: Scp03Session,
        after: Scp03Session,
        command: Seq<u8>,
        result: Result<Seq<u8>, BackendError>,
    },
    Unwrap03 {
        session: Scp03Session,
        after: Scp03Session,
        response: Seq<u8>,
        result: Result<Seq<u8>, BackendError>,
    },
    EncryptKey03 { dek: KeyHandle, key: KeyHandle, result: Result<Seq<u8>, BackendError> },
    Close03 { session: Scp03Session },
    Derive02 {
        enc: KeyHandle,
        mac: KeyHandle,
        dek: KeyHandle,
        counter: Seq<u8>,
        result: Result<Scp02Session, BackendError>,
    },
    CardCryptogram02 {
        session: Scp02Session,
        host: Seq<u8>,
        card: Seq<u8>,
        result: Result<Seq<u8>, BackendError>,
    },
    HostCryptogram02 {
        session: Scp02Session,
        host: Seq<u8>,
        card: Seq<u8>,
        result: Result<Seq<u8>, BackendError>,
    },
    Wrap02 {
        session: Scp02Session,
        after: Scp02Session,
        command: Seq<u8>,
        result: Result<Seq<u8>, BackendError>,
    },
    Unwrap02 {
        session: Scp02Session,
        after: Scp02Session,
        response: Seq<u8>,
        result: Result<Seq<u8>, BackendError>,
    },
    EncryptKey02 {
        session: Scp02Session,
        key: KeyHandle,
        result: Result<Seq<u8>, BackendError>,
    },
    Close02 { session: Scp02Session },
}

/// The bytes of a wrapped command.
pub open spec fn capdu_result(r: Result<Capdu, BackendError>) -> Result<Seq<u8>, BackendError> {
    match r {
        Ok(v) => Ok(capdu_bytes(v)),
        Err(e) => Err(e),
    }
}

/// The bytes of an unwrapped response.
pub open spec fn rapdu_result(r: Result<Rapdu, BackendError>) -> Result<Seq<u8>, BackendError> {
    match r {
        Ok(v) => Ok(rapdu_bytes(v)),
        Err(e) => Err(e),
    }
}

/// The bytes of a challenge or cryptogram.
pub open spec fn field_result(r: Result<Field, BackendError>) -> Result<Seq<u8>, BackendError> {
    match r {
        Ok(v) => Ok(field_bytes(v)),
        Err(e) => Err(e),
    }
}

/// The bytes of an encrypted key.
pub open spec fn block_result(r: Result<EncKeyBlock, BackendError>) -> Result<
    Seq<u8>,
    BackendError,
> {
    match r {
        Ok(v) => Ok(block_bytes(v)),
        Err(e) => Err(e),
    }
}

/// The bytes of an array.
pub open spec fn array_result<const N: usize>(r: Result<[u8; N], BackendError>) -> Result<
    Seq<u8>,
    BackendError,
> {
    match r {
        Ok(v) => Ok(v@),
        Err(e) => Err(e),
    }
}

/// What a history gained.
pub open spec fn gained<T>(before: Seq<T>, after: Seq<T>) -> Seq<T> {
    after.skip(before.len() as int)
}

/// A history only grows.
pub open spec fn grew<T>(before: Seq<T>, after: Seq<T>) -> bool {
    before.len() <= after.len() && after.take(before.len() as int) =~= before
}

} // verus!
