//! A software backend over the `RustCrypto` cipher crates.
//!
//! Keys and sessions live in tables of fixed size; a handle is the index of a
//! slot. A session is opened before authentication, when commands are only
//! MACed. Its security level is latched from P1 of EXTERNAL AUTHENTICATE, which
//! has to be the first command, and holds from then on. A response that cannot
//! be verified closes the session. Key bytes are wiped when their slot is given
//! back.
use vstd::prelude::*;

pub mod crypto;
pub mod key;
pub mod primitives;
pub mod scp02;
pub mod scp03;
pub mod soundness;

use crate::backend::{Event, KeyKind, ScpMode};
use crate::limits::MAC_CHAIN_LEN;
use crate::secret::Secret;

verus! {

/// Keys that the backend holds at once.
pub const MAX_KEY_SLOTS: usize = 16;

/// Sessions of one protocol that the backend holds at once.
pub const MAX_SESSION_SLOTS: usize = 16;

/// A source of randomness that is fit for keys, implemented by the user of the
/// library.
pub trait RandomSource {
    /// What was drawn from this source, oldest first.
    closed spec fn drawn(&self) -> Seq<Seq<u8>> {
        arbitrary()
    }

    /// Fills `out` with random bytes.
    fn fill_bytes(&mut self, out: &mut [u8])
        ensures
            final(out)@.len() == old(out)@.len(),
            final(self).drawn() == old(self).drawn().push(final(out)@),
    ;
}

/// The content of a key slot.
pub struct KeyModel {
    pub kind: KeyKind,
    pub bytes: Seq<u8>,
}

/// The content of an SCP03 session slot.
pub struct Scp03Model {
    pub s_enc: Seq<u8>,
    pub s_mac: Seq<u8>,
    pub s_rmac: Seq<u8>,
    pub mode: ScpMode,
    /// The MAC chaining value.
    pub chain: Seq<u8>,
    /// Commands since authentication.
    pub counter: u32,
    pub level: u8,
    pub authed: bool,
}

/// The content of an SCP02 session slot.
pub struct Scp02Model {
    pub s_enc: Seq<u8>,
    pub s_mac: Seq<u8>,
    pub s_rmac: Seq<u8>,
    pub s_dek: Seq<u8>,
    /// The last command MAC; there is none before the first command.
    pub icv: Seq<u8>,
    pub icv_valid: bool,
    /// The last response MAC.
    pub ricv: Seq<u8>,
    /// The last command, as a response MAC covers it.
    pub rmac_buf: Seq<u8>,
    pub level: u8,
    pub authed: bool,
}

/// What a backend holds.
pub struct Store {
    pub keys: Seq<Option<KeyModel>>,
    pub scp03: Seq<Option<Scp03Model>>,
    pub scp02: Seq<Option<Scp02Model>>,
}

/// What a table holds at an index.
pub open spec fn held<T>(slots: Seq<Option<T>>, index: u16) -> Option<T> {
    if index < slots.len() {
        slots[index as int]
    } else {
        None
    }
}

/// The first free slot.
pub open spec fn first_free<T>(slots: Seq<Option<T>>) -> Option<nat>
    decreases slots.len(),
{
    if slots.len() == 0 {
        None
    } else if slots[0] is None {
        Some(0)
    } else {
        match first_free(slots.skip(1)) {
            Some(n) => Some(n + 1),
            None => None,
        }
    }
}

proof fn lemma_first_free<T>(slots: Seq<Option<T>>, n: nat)
    requires
        n <= slots.len(),
        forall|i: int| 0 <= i < n ==> #[trigger] slots[i] is Some,
    ensures
        n == slots.len() ==> first_free(slots) is None,
        n < slots.len() && slots[n as int] is None ==> first_free(slots) == Some(n),
    decreases n,
{
    if n > 0 {
        assert(slots[0] is Some);
        assert forall|i: int| 0 <= i < n - 1 implies #[trigger] slots.skip(1)[i] is Some by {
            assert(slots[i + 1] is Some);
        }
        lemma_first_free(slots.skip(1), (n - 1) as nat);
    }
}

/// A stored key.
pub(crate) struct KeySlot {
    kind: KeyKind,
    key: Secret,
}

impl KeySlot {
    #[verifier::type_invariant]
    spec fn inv(self) -> bool {
        self.key@.len() == self.kind.len()
    }

    pub closed spec fn model(self) -> KeyModel {
        KeyModel { kind: self.kind, bytes: self.key@ }
    }
}

/// An SCP03 session.
pub(crate) struct Scp03SessionSlot {
    s_enc: Secret,
    s_mac: Secret,
    s_rmac: Secret,
    mode: ScpMode,
    chain: [u8; MAC_CHAIN_LEN],
    counter: u32,
    level: u8,
    authed: bool,
}

impl Scp03SessionSlot {
    #[verifier::type_invariant]
    spec fn inv(self) -> bool {
        &&& crypto::is_aes_key(self.s_enc@)
        &&& self.s_mac@.len() == self.s_enc@.len()
        &&& self.s_rmac@.len() == self.s_enc@.len()
    }

    pub closed spec fn model(self) -> Scp03Model {
        Scp03Model {
            s_enc: self.s_enc@,
            s_mac: self.s_mac@,
            s_rmac: self.s_rmac@,
            mode: self.mode,
            chain: self.chain@,
            counter: self.counter,
            level: self.level,
            authed: self.authed,
        }
    }
}

/// An SCP02 session.
pub(crate) struct Scp02SessionSlot {
    s_enc: Secret,
    s_mac: Secret,
    s_rmac: Secret,
    s_dek: Secret,
    icv: [u8; 8],
    icv_valid: bool,
    ricv: [u8; 8],
    rmac_buf: Vec<u8>,
    level: u8,
    authed: bool,
}

impl Scp02SessionSlot {
    #[verifier::type_invariant]
    spec fn inv(self) -> bool {
        &&& self.s_enc@.len() == 16
        &&& self.s_mac@.len() == 16
        &&& self.s_rmac@.len() == 16
        &&& self.s_dek@.len() == 16
        &&& self.rmac_buf@.len() <= 260
    }

    pub closed spec fn model(self) -> Scp02Model {
        Scp02Model {
            s_enc: self.s_enc@,
            s_mac: self.s_mac@,
            s_rmac: self.s_rmac@,
            s_dek: self.s_dek@,
            icv: self.icv@,
            icv_valid: self.icv_valid,
            ricv: self.ricv@,
            rmac_buf: self.rmac_buf@,
            level: self.level,
            authed: self.authed,
        }
    }
}

pub(crate) closed spec fn key_model(slot: Option<KeySlot>) -> Option<KeyModel> {
    match slot {
        Some(s) => Some(s.model()),
        None => None,
    }
}

pub(crate) closed spec fn scp03_model(slot: Option<Scp03SessionSlot>) -> Option<Scp03Model> {
    match slot {
        Some(s) => Some(s.model()),
        None => None,
    }
}

pub(crate) closed spec fn scp02_model(slot: Option<Scp02SessionSlot>) -> Option<Scp02Model> {
    match slot {
        Some(s) => Some(s.model()),
        None => None,
    }
}

/// The software backend, with its source of randomness.
pub struct RustCryptoBackend<R> {
    keys: [Option<KeySlot>; MAX_KEY_SLOTS],
    sessions: [Option<Scp03SessionSlot>; MAX_SESSION_SLOTS],
    scp02_sessions: [Option<Scp02SessionSlot>; MAX_SESSION_SLOTS],
    rng: R,
    log: Ghost<Seq<Event>>,
}

/// A backend that holds nothing.
pub open spec fn empty_store() -> Store {
    Store {
        keys: Seq::new(MAX_KEY_SLOTS as nat, |i: int| None),
        scp03: Seq::new(MAX_SESSION_SLOTS as nat, |i: int| None),
        scp02: Seq::new(MAX_SESSION_SLOTS as nat, |i: int| None),
    }
}

impl<R> RustCryptoBackend<R> {
    /// What the backend holds.
    pub closed spec fn store(self) -> Store {
        Store {
            keys: self.keys@.map_values(|s: Option<KeySlot>| key_model(s)),
            scp03: self.sessions@.map_values(|s: Option<Scp03SessionSlot>| scp03_model(s)),
            scp02: self.scp02_sessions@.map_values(|s: Option<Scp02SessionSlot>| scp02_model(s)),
        }
    }

    /// The source of randomness.
    pub closed spec fn source(self) -> R {
        self.rng
    }

    /// A backend that holds nothing yet and draws randomness from `rng`.
    pub fn new(rng: R) -> (r: RustCryptoBackend<R>)
        ensures
            r.store() == empty_store(),
            r.log_of() == Seq::<Event>::empty(),
            r.source() == rng,
    {
        let r: RustCryptoBackend<R> = RustCryptoBackend {
            keys: [
                None,
                None,
                None,
                None,
                None,
                None,
                None,
                None,
                None,
                None,
                None,
                None,
                None,
                None,
                None,
                None,
            ],
            sessions: [
                None,
                None,
                None,
                None,
                None,
                None,
                None,
                None,
                None,
                None,
                None,
                None,
                None,
                None,
                None,
                None,
            ],
            scp02_sessions: [
                None,
                None,
                None,
                None,
                None,
                None,
                None,
                None,
                None,
                None,
                None,
                None,
                None,
                None,
                None,
                None,
            ],
            rng,
            log: Ghost(Seq::empty()),
        };
        proof {
            assert(r.store().keys =~= empty_store().keys);
            assert(r.store().scp03 =~= empty_store().scp03);
            assert(r.store().scp02 =~= empty_store().scp02);
        }
        r
    }

    /// The recorded calls.
    pub closed spec fn log_of(self) -> Seq<Event> {
        self.log@
    }
}

} // verus!
