//! Keys, key check values and randomness.
use vstd::prelude::*;

use crate::backend::{
    array_result, Event, ExportableKeyBackend, ExportedKey, KeyBackend, KeyHandle, KeyKind,
};
use crate::error::{BackendError, Detail};
use crate::rustcrypto::crypto::{
    aes_block, aes_ecb_block, tdes_block, tdes_ecb_block, zeroed, zeros, BLOCK, DES_BLOCK,
};
use crate::rustcrypto::{
    first_free, held, lemma_first_free, KeyModel, KeySlot, RandomSource, RustCryptoBackend, Store,
    MAX_KEY_SLOTS,
};
use crate::secret::{wipe, Secret};

verus! {

/// What storing a key does: it takes the first free slot.
pub open spec fn stored(store: Store, kind: KeyKind, bytes: Seq<u8>) -> (
    Result<KeyHandle, BackendError>,
    Store,
) {
    match first_free(store.keys) {
        Some(n) => (
            Ok(KeyHandle(n as u16)),
            Store { keys: store.keys.update(n as int, Some(KeyModel { kind, bytes })), ..store },
        ),
        None => (Err(BackendError::KeyGen(Detail::Fixed("key table full"))), store),
    }
}

/// What importing a key does: its length must be that of its kind, and there must be
/// room for it.
pub open spec fn imported(store: Store, kind: KeyKind, bytes: Seq<u8>) -> (
    Result<KeyHandle, BackendError>,
    Store,
) {
    if bytes.len() != kind.len() {
        (Err(BackendError::KeyImport(Detail::Fixed("byte length != key kind"))), store)
    } else if first_free(store.keys) is None {
        (Err(BackendError::KeyImport(Detail::Fixed("key table full"))), store)
    } else {
        stored(store, kind, bytes)
    }
}

/// The key check value: the first three bytes of a known block, `01` bytes under
/// AES and zeros under triple DES.
pub open spec fn check_value(key: KeyModel) -> Seq<u8> {
    match key.kind {
        KeyKind::TripleDesDouble => tdes_block(key.bytes, zeros(8)).take(3),
        _ => aes_block(key.bytes, Seq::new(16, |i: int| 1u8)).take(3),
    }
}

/// The key check value of a handle.
pub open spec fn check_value_of(store: Store, h: KeyHandle) -> Result<Seq<u8>, BackendError> {
    match held(store.keys, h.0) {
        Some(key) => Ok(check_value(key)),
        None => Err(BackendError::Crypto(Detail::Fixed("key handle invalid"))),
    }
}

/// The bytes of a handle.
pub open spec fn exported(store: Store, h: KeyHandle) -> Result<Seq<u8>, BackendError> {
    match held(store.keys, h.0) {
        Some(key) => Ok(key.bytes),
        None => Err(BackendError::Crypto(Detail::Fixed("key handle invalid"))),
    }
}

/// A stored key is found under its handle.
pub proof fn law_stored_keys_are_found(store: Store, kind: KeyKind, bytes: Seq<u8>)
    requires
        store.keys.len() == MAX_KEY_SLOTS,
        stored(store, kind, bytes).0 is Ok,
    ensures
        ({
            let (r, after) = stored(store, kind, bytes);
            &&& held(after.keys, r->Ok_0.0) == Some(KeyModel { kind, bytes })
            &&& exported(after, r->Ok_0) == Ok::<Seq<u8>, BackendError>(bytes)
            &&& forall|i: u16|
                i != r->Ok_0.0 ==> #[trigger] held(after.keys, i) == held(store.keys, i)
        }),
{
    lemma_free_is_inside(store.keys);
}

/// The first free slot is one of the table, and free.
pub proof fn lemma_free_is_inside<T>(slots: Seq<Option<T>>)
    ensures
        first_free(slots) matches Some(n) ==> n < slots.len() && slots[n as int] is None,
    decreases slots.len(),
{
    if slots.len() > 0 && slots[0] is Some {
        lemma_free_is_inside(slots.skip(1));
    }
}

impl<R> RustCryptoBackend<R> {
    /// The key behind a handle.
    pub(crate) fn key_slot(&self, h: KeyHandle) -> (r: Option<&KeySlot>)
        ensures
            match held(self.store().keys, h.0) {
                Some(k) => r matches Some(slot) && slot.model() == k && k.bytes.len()
                    == k.kind.len(),
                None => r is None,
            },
    {
        let i: usize = h.index() as usize;
        if i >= MAX_KEY_SLOTS {
            return None;
        }
        match &self.keys[i] {
            Some(slot) => {
                proof {
                    use_type_invariant(slot);
                }
                Some(slot)
            },
            None => None,
        }
    }

    /// Stores a key in the first free slot.
    fn store_key(&mut self, kind: KeyKind, bytes: &[u8]) -> (r: Result<KeyHandle, BackendError>)
        requires
            bytes@.len() == kind.len(),
        ensures
            (r, final(self).store()) == stored(old(self).store(), kind, bytes@),
            final(self).log == old(self).log,
            final(self).rng == old(self).rng,
    {
        let mut i: usize = 0;
        while i < MAX_KEY_SLOTS
            invariant
                i <= MAX_KEY_SLOTS,
                *self == *old(self),
                bytes@.len() == kind.len(),
                forall|j: int| 0 <= j < i ==> #[trigger] self.store().keys[j] is Some,
            decreases MAX_KEY_SLOTS - i,
        {
            if self.keys[i].is_none() {
                proof {
                    lemma_first_free(self.store().keys, i as nat);
                }
                let key: Secret = match Secret::from_slice(bytes) {
                    Some(k) => k,
                    None => vstd::pervasive::unreached(),
                };
                self.keys[i] = Some(KeySlot { kind, key });
                proof {
                    let after = stored(old(self).store(), kind, bytes@).1;
                    assert(self.store().keys =~= after.keys);
                }
                return Ok(KeyHandle::new(i as u16));
            }
            i = i + 1;
        }
        proof {
            lemma_first_free(self.store().keys, MAX_KEY_SLOTS as nat);
        }
        Err(BackendError::KeyGen(Detail::Fixed("key table full")))
    }

    /// The key check value of a handle.
    fn kcv(&self, h: KeyHandle) -> (r: Result<[u8; 3], BackendError>)
        ensures
            array_result(r) == check_value_of(self.store(), h),
    {
        let slot: &KeySlot = match self.key_slot(h) {
            Some(s) => s,
            None => return Err(BackendError::Crypto(Detail::Fixed("key handle invalid"))),
        };
        let key: &[u8] = slot.key.as_slice();
        let kcv: [u8; 3] = match slot.kind {
            KeyKind::TripleDesDouble => {
                let zero: [u8; DES_BLOCK] = [0u8; DES_BLOCK];
                let mut out: [u8; DES_BLOCK] = [0u8; DES_BLOCK];
                tdes_ecb_block(key, zero, &mut out)?;
                assert(zero@ =~= zeros(8));
                let three: [u8; 3] = [out[0], out[1], out[2]];
                assert(three@ =~= out@.take(3));
                three
            },
            _ => {
                let ones: [u8; BLOCK] = [1u8; BLOCK];
                let mut out: [u8; BLOCK] = [0u8; BLOCK];
                aes_ecb_block(key, &ones, &mut out)?;
                assert(ones@ =~= Seq::new(16, |i: int| 1u8));
                let three: [u8; 3] = [out[0], out[1], out[2]];
                assert(three@ =~= out@.take(3));
                three
            },
        };
        Ok(kcv)
    }

    /// The bytes of a handle.
    fn export(&self, h: KeyHandle) -> (r: Result<ExportedKey, BackendError>)
        ensures
            match exported(self.store(), h) {
                Ok(bytes) => r matches Ok(k) && k@ == bytes,
                Err(e) => r matches Err(x) && x == e,
            },
    {
        let slot: &KeySlot = match self.key_slot(h) {
            Some(s) => s,
            None => return Err(BackendError::Crypto(Detail::Fixed("key handle invalid"))),
        };
        match ExportedKey::from_slice(slot.key.as_slice()) {
            Some(k) => Ok(k),
            None => Err(BackendError::Crypto(Detail::Fixed("key too large"))),
        }
    }
}

impl<R: RandomSource> RustCryptoBackend<R> {
    /// What was drawn from the source of randomness, oldest first.
    pub open spec fn draws(self) -> Seq<Seq<u8>> {
        self.source().drawn()
    }

    /// `len` random bytes.
    fn draw(&mut self, len: usize) -> (r: Vec<u8>)
        ensures
            final(self).store() == old(self).store(),
            final(self).log == old(self).log,
            final(self).draws() == old(self).draws().push(r@),
            r@.len() == len,
    {
        let mut bytes: Vec<u8> = zeroed(len);
        self.rng.fill_bytes(bytes.as_mut_slice());
        bytes
    }
}

impl<R: RandomSource> KeyBackend for RustCryptoBackend<R> {
    open spec fn events(&self) -> Seq<Event> {
        self.log_of()
    }

    fn import_key(&mut self, kind: KeyKind, bytes: &[u8]) -> (r: Result<KeyHandle, BackendError>)
        ensures
            (r, final(self).store()) == imported(old(self).store(), kind, bytes@),
            final(self).draws() == old(self).draws(),
    {
        let r: Result<KeyHandle, BackendError> = if bytes.len() != kind.clear_len() {
            Err(BackendError::KeyImport(Detail::Fixed("byte length != key kind")))
        } else {
            match self.store_key(kind, bytes) {
                Ok(h) => Ok(h),
                Err(_) => Err(BackendError::KeyImport(Detail::Fixed("key table full"))),
            }
        };
        self.log = Ghost(
            self.log@.push(Event::ImportKey { kind, bytes: bytes@, result: r }),
        );
        r
    }

    fn generate_key(&mut self, kind: KeyKind) -> (r: Result<KeyHandle, BackendError>)
        ensures
            final(self).draws() == old(self).draws().push(final(self).draws().last()),
            final(self).draws().last().len() == kind.len(),
            (r, final(self).store()) == stored(
                old(self).store(),
                kind,
                final(self).draws().last(),
            ),
    {
        let mut bytes: Vec<u8> = self.draw(kind.clear_len());
        let r: Result<KeyHandle, BackendError> = self.store_key(kind, bytes.as_slice());
        assert(self.draws().last() == bytes@);
        wipe(bytes.as_mut_slice());
        self.log = Ghost(self.log@.push(Event::GenerateKey { kind, result: r }));
        r
    }

    fn compute_kcv(&mut self, h: &KeyHandle) -> (r: Result<[u8; 3], BackendError>)
        ensures
            array_result(r) == check_value_of(old(self).store(), *h),
            final(self).store() == old(self).store(),
            final(self).draws() == old(self).draws(),
    {
        let r: Result<[u8; 3], BackendError> = self.kcv(*h);
        self.log = Ghost(
            self.log@.push(Event::KeyCheckValue { key: *h, result: array_result(r) }),
        );
        r
    }

    fn random_bytes(&mut self, out: &mut [u8]) -> (r: Result<(), BackendError>)
        ensures
            final(self).store() == old(self).store(),
            final(out)@.len() == old(out)@.len(),
            final(self).draws() == old(self).draws().push(final(out)@),
            r is Ok,
    {
        self.rng.fill_bytes(out);
        self.log = Ghost(
            self.log@.push(Event::Random { len: old(out)@.len(), result: Ok(out@) }),
        );
        Ok(())
    }

    fn ct_eq(&self, a: &[u8], b: &[u8]) -> (r: bool) {
        ct_equal(a, b)
    }
}

impl<R: RandomSource> ExportableKeyBackend for RustCryptoBackend<R> {
    fn export_key_dangerous(&mut self, h: &KeyHandle) -> (r: Result<ExportedKey, BackendError>)
        ensures
            final(self).store() == old(self).store(),
            final(self).draws() == old(self).draws(),
            match exported(old(self).store(), *h) {
                Ok(bytes) => r matches Ok(k) && k@ == bytes,
                Err(e) => r matches Err(x) && x == e,
            },
    {
        let r: Result<ExportedKey, BackendError> = self.export(*h);
        self.log = Ghost(
            self.log@.push(
                Event::ExportKey { key: *h, result: exported(old(self).store(), *h) },
            ),
        );
        r
    }
}

/// Whether two byte strings are equal. Where their lengths are, every byte is
/// looked at before the decision.
pub(crate) fn ct_equal(a: &[u8], b: &[u8]) -> (r: bool)
    ensures
        r == (a@ == b@),
{
    if a.len() != b.len() {
        return false;
    }
    let mut diff: u8 = 0;
    let mut i: usize = 0;
    while i < a.len()
        invariant
            i <= a@.len(),
            a@.len() == b@.len(),
            diff == 0 <==> (forall|j: int| 0 <= j < i ==> a@[j] == b@[j]),
        decreases a@.len() - i,
    {
        let x: u8 = a[i];
        let y: u8 = b[i];
        let before: u8 = diff;
        diff = before | (x ^ y);
        assert((before | (x ^ y)) == 0 <==> before == 0 && x == y) by (bit_vector);
        i = i + 1;
    }
    proof {
        if a@ == b@ {
            assert(diff == 0);
        } else if diff == 0 {
            assert(a@ =~= b@);
        }
    }
    black_box(diff) == 0
}

/// `core::hint::black_box`: the value as it is, hidden from the optimiser.
#[verifier::external_body]
fn black_box(v: u8) -> (r: u8)
    ensures
        r == v,
{
    core::hint::black_box(v)
}

} // verus!
