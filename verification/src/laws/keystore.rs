//! The keys of the software backend and their check values.
use vstd::prelude::*;

use crate::backend::{KeyHandle, KeyKind};
use crate::error::BackendError;
use crate::laws::octets::all_zero;
use crate::rustcrypto::{first_free, held, Store};
use crate::rustcrypto::crypto::{aes_cbc, tdes_chain, zeros};
use crate::rustcrypto::key::{check_value_of, exported, imported, lemma_free_is_inside};

verus! {

/// The octets of a key of each kind.
pub proof fn law_key_lengths(kind: KeyKind)
    ensures
        kind is Aes128 ==> kind.len() == 16,
        kind is Aes192 ==> kind.len() == 24,
        kind is Aes256 ==> kind.len() == 32,
        kind is TripleDesDouble ==> kind.len() == 16,
{
}

/// A key can be imported exactly where it has the length of its kind and a slot is free;
/// it comes out again as it went in, and every other key and every session stays.
pub proof fn law_imported_keys_come_back(store: Store, kind: KeyKind, bytes: Seq<u8>)
    requires
        store.keys.len() <= u16::MAX,
    ensures
        imported(store, kind, bytes).0 is Ok <==> bytes.len() == kind.len() && first_free(
            store.keys,
        ) is Some,
        ({
            let (r, after) = imported(store, kind, bytes);
            &&& r is Err ==> after == store
            &&& r is Ok ==> {
                &&& held(store.keys, r->Ok_0.0) is None
                &&& exported(after, r->Ok_0) == Ok::<Seq<u8>, BackendError>(bytes)
                &&& held(after.keys, r->Ok_0.0)->Some_0.kind == kind
                &&& forall|i: u16|
                    i != r->Ok_0.0 ==> #[trigger] held(after.keys, i) == held(store.keys, i)
                &&& after.scp03 == store.scp03
                &&& after.scp02 == store.scp02
            }
        }),
{
    lemma_free_is_inside(store.keys);
}

/// The check value of an AES key is the beginning of sixteen `01` octets encrypted under
/// it, and that of a DES key the beginning of eight zeros. It has three octets.
pub proof fn law_check_values(store: Store, h: KeyHandle, block: Seq<u8>, iv: Seq<u8>)
    requires
        held(store.keys, h.0) is Some,
        all_zero(iv),
        ({
            let des = held(store.keys, h.0)->Some_0.kind is TripleDesDouble;
            &&& iv.len() == block.len()
            &&& des ==> block.len() == 8 && all_zero(block)
            &&& !des ==> block.len() == 16 && forall|i: int|
                0 <= i < 16 ==> #[trigger] block[i] == 1
        }),
    ensures
        ({
            let key = held(store.keys, h.0)->Some_0;
            check_value_of(store, h) matches Ok(kcv) && {
                &&& kcv.len() == 3
                &&& key.kind is TripleDesDouble ==> kcv == tdes_chain(
                    key.bytes,
                    iv,
                    block,
                ).subrange(0, 3)
                &&& !(key.kind is TripleDesDouble) ==> kcv == aes_cbc(
                    key.bytes,
                    iv,
                    block,
                ).subrange(0, 3)
            }
        }),
{
    let key = held(store.keys, h.0)->Some_0;
    if key.kind is TripleDesDouble {
        assert(iv =~= zeros(8));
        assert(block =~= zeros(8));
        let c = tdes_chain(key.bytes, iv, block);
        assert(c.take(3) =~= c.subrange(0, 3));
    } else {
        assert(iv =~= zeros(16));
        assert(block =~= Seq::new(16, |i: int| 1u8));
        let c = aes_cbc(key.bytes, iv, block);
        assert(c.take(3) =~= c.subrange(0, 3));
    }
}

} // verus!
