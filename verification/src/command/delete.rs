//! DELETE of objects and keys (GPCS v2.3.1 §11.2).
use vstd::prelude::*;

use crate::buffers::{capdu_bytes, capdu_new};
use crate::command::{build_from, built, lv, push, push_lv, short_apdu, BuildError, Capdu};

verus! {

/// The data field of an object deletion: the identifier under tag `4F`.
pub open spec fn object_reference(aid: Seq<u8>) -> Seq<u8> {
    seq![0x4Fu8] + lv(aid)
}

/// P2 of an object deletion: `80` deletes what depends on the object too.
pub open spec fn cascade_p2(cascade: bool) -> u8 {
    if cascade {
        0x80
    } else {
        0x00
    }
}

/// The data field of a key deletion: the identifier under tag `D0` and the
/// version under tag `D2`, each only where it is given.
pub open spec fn key_reference(kid: Option<u8>, kvn: Option<u8>) -> Seq<u8> {
    let id = match kid {
        Some(k) => seq![0xD0u8, 0x01u8, k],
        None => Seq::empty(),
    };
    let version = match kvn {
        Some(v) => seq![0xD2u8, 0x01u8, v],
        None => Seq::empty(),
    };
    id + version
}

/// DELETE of the object `aid`.
pub fn delete_object(aid: &[u8], cascade: bool) -> (r: Result<Capdu, BuildError>)
    ensures
        built(r, 0x84, 0xE4, 0x00, cascade_p2(cascade), object_reference(aid@), true),
{
    let mut data: Capdu = capdu_new();
    push(&mut data, &[0x4F])?;
    push_lv(&mut data, aid)?;
    assert(capdu_bytes(data) =~= object_reference(aid@));
    let p2: u8 = if cascade {
        0x80
    } else {
        0x00
    };
    build_from(0x84, 0xE4, 0x00, p2, &data, true)
}

/// DELETE of keys by identifier, by version or by both; one must be given.
pub fn delete_key(kid: Option<u8>, kvn: Option<u8>) -> (r: Result<Capdu, BuildError>)
    ensures
        match r {
            Ok(apdu) => (kid is Some || kvn is Some) && capdu_bytes(apdu) == short_apdu(
                0x84,
                0xE4,
                0x00,
                0x00,
                key_reference(kid, kvn),
                true,
            ),
            Err(e) => kid is None && kvn is None && e == BuildError::EmptyKeyScope,
        },
{
    if kid.is_none() && kvn.is_none() {
        return Err(BuildError::EmptyKeyScope);
    }
    let mut data: Capdu = capdu_new();
    if let Some(k) = kid {
        push(&mut data, &[0xD0, 0x01, k])?;
    }
    if let Some(v) = kvn {
        push(&mut data, &[0xD2, 0x01, v])?;
    }
    assert(capdu_bytes(data) =~= key_reference(kid, kvn));
    build_from(0x84, 0xE4, 0x00, 0x00, &data, true)
}

} // verus!
