//! The SCP02 operations of the software backend (GPCS v2.3.1 Appendix E).
use vstd::prelude::*;

use crate::backend::{
    array_result, block_result, capdu_result, rapdu_result, Event, KeyHandle, KeyKind,
    Scp02Backend, Scp02Session,
};
use crate::buffers::{
    block_from_slice, capdu_bytes, capdu_extend, capdu_new, rapdu_bytes, rapdu_from_slice, Capdu,
    EncKeyBlock, Rapdu,
};
use crate::error::{BackendError, Detail};
use crate::limits::RAPDU_MAX;
use crate::rustcrypto::crypto::{
    des_block, des_ecb_block, law_retail_mac_length, law_unpad_inverts_pad, pad80_8, padded,
    retail_mac, retail_mac_of,
    tdes_block, tdes_cbc_encrypt, tdes_chain, tdes_ecb_block, tdes_mac, tdes_mac_of, zeroed, zeros,
    DES_BLOCK,
};
use crate::rustcrypto::key::ct_equal;
use crate::rustcrypto::scp03::command_data;
use crate::rustcrypto::soundness::scp02_sound;
use crate::rustcrypto::{
    first_free, held, lemma_first_free, KeySlot, RandomSource, RustCryptoBackend, Scp02Model,
    Scp02SessionSlot, Store, MAX_SESSION_SLOTS,
};
use crate::secret::{wipe, Secret};

verus! {

/// Command encryption.
const SL_CDEC: u8 = 0x02;

/// Response MAC.
const SL_RMAC: u8 = 0x10;

const EXTERNAL_AUTHENTICATE: u8 = 0x82;

/// Longest input of a response MAC.
pub const RMAC_INPUT_MAX: usize = 522;

// ---- Keys ------------------------------------------------------------------

/// A double-length DES key by its handle.
pub open spec fn tdes_key_of(store: Store, h: KeyHandle) -> Result<Seq<u8>, BackendError> {
    match held(store.keys, h.0) {
        None => Err(BackendError::Crypto(Detail::Fixed("key handle invalid"))),
        Some(key) => if key.kind is TripleDesDouble {
            Ok(key.bytes)
        } else {
            Err(BackendError::Crypto(Detail::Fixed("SCP02 needs a 3DES double-length key")))
        },
    }
}

/// A key that is put into a key payload, by its handle. A key of another kind is not
/// supported there.
pub open spec fn payload_key_of(store: Store, h: KeyHandle) -> Result<Seq<u8>, BackendError> {
    match held(store.keys, h.0) {
        None => Err(BackendError::Crypto(Detail::Fixed("key handle invalid"))),
        Some(key) => if key.kind is TripleDesDouble {
            Ok(key.bytes)
        } else {
            Err(BackendError::Unsupported(Detail::Fixed("SCP02 needs a 3DES double-length key")))
        },
    }
}

/// A session key: the constant and the sequence counter, filled with zeros and
/// encrypted under the base key.
pub open spec fn session_key(base: Seq<u8>, constant: Seq<u8>, counter: Seq<u8>) -> Seq<u8> {
    tdes_chain(base, zeros(8), constant + counter + zeros(12))
}

/// A fresh session. The response MAC key comes from the base MAC key.
pub open spec fn fresh_session(
    enc: Seq<u8>,
    mac: Seq<u8>,
    dek: Seq<u8>,
    counter: Seq<u8>,
) -> Scp02Model {
    Scp02Model {
        s_enc: session_key(enc, seq![0x01u8, 0x82u8], counter),
        s_mac: session_key(mac, seq![0x01u8, 0x01u8], counter),
        s_rmac: session_key(mac, seq![0x01u8, 0x02u8], counter),
        s_dek: session_key(dek, seq![0x01u8, 0x81u8], counter),
        icv: zeros(8),
        icv_valid: false,
        ricv: zeros(8),
        rmac_buf: Seq::empty(),
        level: 0,
        authed: false,
    }
}

/// What deriving a session does.
pub open spec fn session_derived(
    store: Store,
    enc: KeyHandle,
    mac: KeyHandle,
    dek: KeyHandle,
    counter: Seq<u8>,
) -> (Result<Scp02Session, BackendError>, Store) {
    match (tdes_key_of(store, enc), tdes_key_of(store, mac), tdes_key_of(store, dek)) {
        (Err(e), _, _) => (Err(e), store),
        (_, Err(e), _) => (Err(e), store),
        (_, _, Err(e)) => (Err(e), store),
        (Ok(k_enc), Ok(k_mac), Ok(k_dek)) => match first_free(store.scp02) {
            None => (Err(BackendError::KeyGen(Detail::Fixed("session table full"))), store),
            Some(n) => (
                Ok(Scp02Session(n as u16)),
                Store {
                    scp02: store.scp02.update(
                        n as int,
                        Some(fresh_session(k_enc, k_mac, k_dek, counter)),
                    ),
                    ..store
                },
            ),
        },
    }
}

/// A cryptogram over two challenges.
pub open spec fn cryptogram_of(store: Store, s: Scp02Session, head: Seq<u8>, tail: Seq<u8>) -> Result<
    Seq<u8>,
    BackendError,
> {
    match held(store.scp02, s.0) {
        None => Err(BackendError::Crypto(Detail::Fixed("session handle invalid"))),
        Some(slot) => Ok(tdes_mac_of(slot.s_enc, zeros(8), head + tail)),
    }
}

/// A new key under the session's key encryption key, block by block. Without a session
/// there is no such key.
pub open spec fn key_payload_of(store: Store, s: Scp02Session, new_key: KeyHandle) -> Result<
    Seq<u8>,
    BackendError,
> {
    match held(store.scp02, s.0) {
        None => Err(BackendError::Unsupported(Detail::Fixed("session handle invalid"))),
        Some(slot) => match payload_key_of(store, new_key) {
            Err(e) => Err(e),
            Ok(key) => Ok(
                tdes_block(slot.s_dek, key.take(8)) + tdes_block(slot.s_dek, key.skip(8)),
            ),
        },
    }
}

// ---- Commands --------------------------------------------------------------

/// The header that is MACed, and the header that is sent: with the secure
/// messaging bit, and with the length of data and MAC together.
pub open spec fn secure_header(capdu: Seq<u8>, len: int) -> Seq<u8> {
    seq![capdu[0] | 0x04, capdu[1], capdu[2], capdu[3], (len + 8) as u8]
}

/// The initial value of a command MAC: zero at first, and the encrypted MAC of
/// the command before from then on.
pub open spec fn mac_start(slot: Scp02Model) -> Seq<u8> {
    if slot.icv_valid {
        des_block(slot.s_mac.take(8), slot.icv)
    } else {
        zeros(8)
    }
}

/// The MAC of a command; it covers the data in clear.
pub open spec fn command_mac(slot: Scp02Model, capdu: Seq<u8>, data: Seq<u8>) -> Seq<u8> {
    retail_mac_of(slot.s_mac, mac_start(slot), secure_header(capdu, data.len() as int) + data)
}

/// The data as they are sent: encrypted where the level says so.
pub open spec fn command_body(slot: Scp02Model, data: Seq<u8>) -> Seq<u8> {
    if slot.authed && slot.level & 0x02 != 0 && data.len() > 0 {
        tdes_chain(slot.s_enc, zeros(8), padded(data, 8))
    } else {
        data
    }
}

/// A command as a response MAC covers it: the plain header, its length and its
/// data.
pub open spec fn stripped_command(capdu: Seq<u8>, data: Seq<u8>) -> Seq<u8> {
    seq![capdu[0] & 0xF8, capdu[1], capdu[2], capdu[3], data.len() as u8] + data
}

/// What protecting a command does: the bytes to send, and the session after it.
/// Before authentication only EXTERNAL AUTHENTICATE goes; its P1 becomes the
/// level, and its MAC the first response chaining value. What follows the data
/// of the command is not sent.
pub open spec fn command_wrapped(slot: Scp02Model, capdu: Seq<u8>) -> Result<
    (Seq<u8>, Scp02Model),
    BackendError,
> {
    match command_data(capdu) {
        Err(e) => Err(e),
        Ok(data) => if !slot.authed && capdu[1] != 0x82 {
            Err(BackendError::Crypto(Detail::Fixed("first wrap must be EXTERNAL AUTHENTICATE")))
        } else {
            let body = command_body(slot, data);
            if data.len() + 8 > 255 || body.len() + 8 > 255 {
                Err(BackendError::Crypto(Detail::Fixed("wrapped Lc exceeds short APDU")))
            } else {
                let mac = command_mac(slot, capdu, data);
                let level = if slot.authed {
                    slot.level
                } else {
                    capdu[2]
                };
                Ok(
                    (
                        secure_header(capdu, body.len() as int) + body + mac,
                        Scp02Model {
                            icv: mac,
                            icv_valid: true,
                            level,
                            authed: true,
                            ricv: if slot.authed {
                                slot.ricv
                            } else {
                                mac
                            },
                            rmac_buf: if slot.authed && level & 0x10 != 0 {
                                stripped_command(capdu, data)
                            } else {
                                slot.rmac_buf
                            },
                            ..slot
                        },
                    ),
                )
            }
        },
    }
}

/// The same, by the session's handle. A command that cannot be protected leaves
/// everything as it was.
pub open spec fn command_wrapped_by(store: Store, s: Scp02Session, capdu: Seq<u8>) -> (
    Result<Seq<u8>, BackendError>,
    Store,
) {
    if capdu.len() < 4 {
        (Err(BackendError::Crypto(Detail::Fixed("C-APDU shorter than header"))), store)
    } else {
        match held(store.scp02, s.0) {
            None => (Err(BackendError::Crypto(Detail::Fixed("session handle invalid"))), store),
            Some(slot) => match command_wrapped(slot, capdu) {
                Err(e) => (Err(e), store),
                Ok((out, after)) => (
                    Ok(out),
                    Store { scp02: store.scp02.update(s.0 as int, Some(after)), ..store },
                ),
            },
        }
    }
}

// ---- Responses -------------------------------------------------------------

/// The input of a response MAC: the command, and the length, the data and the
/// status word of the response.
pub open spec fn rmac_input(slot: Scp02Model, data: Seq<u8>, sw: Seq<u8>) -> Seq<u8> {
    slot.rmac_buf + seq![(data.len() % 256) as u8] + data + sw
}

/// What a response says, and the response chaining value after it.
pub open spec fn response_unwrapped(slot: Scp02Model, rapdu: Seq<u8>) -> Result<
    (Seq<u8>, Seq<u8>),
    BackendError,
> {
    if !slot.authed {
        Err(BackendError::Crypto(Detail::Fixed("unwrap before authentication")))
    } else if rapdu.len() < 2 {
        Err(BackendError::Crypto(Detail::Fixed("R-APDU shorter than SW")))
    } else if slot.level & 0x10 == 0 {
        if rapdu.len() > RAPDU_MAX {
            Err(BackendError::Crypto(Detail::Fixed("buffer overflow")))
        } else {
            Ok((rapdu, slot.ricv))
        }
    } else {
        let body = rapdu.take(rapdu.len() - 2);
        let sw = rapdu.skip(rapdu.len() - 2);
        if body.len() < 8 {
            Err(BackendError::Crypto(Detail::Fixed("R-APDU too short for R-MAC")))
        } else {
            let data = body.take(body.len() - 8);
            if rmac_input(slot, data, sw).len() > RMAC_INPUT_MAX {
                Err(BackendError::Crypto(Detail::Fixed("buffer overflow")))
            } else {
                let mac = retail_mac_of(slot.s_rmac, slot.ricv, rmac_input(slot, data, sw));
                if mac != body.skip(body.len() - 8) {
                    Err(BackendError::Crypto(Detail::Fixed("R-MAC verification failed")))
                } else if data.len() + 2 > RAPDU_MAX {
                    Err(BackendError::Crypto(Detail::Fixed("buffer overflow")))
                } else {
                    Ok((data + sw, mac))
                }
            }
        }
    }
}

/// The same, by the session's handle. Any failure closes the session.
pub open spec fn response_unwrapped_by(store: Store, s: Scp02Session, rapdu: Seq<u8>) -> (
    Result<Seq<u8>, BackendError>,
    Store,
) {
    match held(store.scp02, s.0) {
        None => (Err(BackendError::Crypto(Detail::Fixed("session handle invalid"))), store),
        Some(slot) => match response_unwrapped(slot, rapdu) {
            Ok((out, mac)) => (
                Ok(out),
                Store {
                    scp02: store.scp02.update(
                        s.0 as int,
                        Some(Scp02Model { ricv: mac, rmac_buf: Seq::empty(), ..slot }),
                    ),
                    ..store
                },
            ),
            Err(e) => (Err(e), session_closed(store, s)),
        },
    }
}

/// The store without a session.
pub open spec fn session_closed(store: Store, s: Scp02Session) -> Store {
    if s.0 < store.scp02.len() {
        Store { scp02: store.scp02.update(s.0 as int, None), ..store }
    } else {
        store
    }
}

// ---- Laws ------------------------------------------------------------------

/// A response that fails takes the session with it: nothing can be protected or
/// verified with it any more.
pub proof fn law_failed_response_closes_the_session(store: Store, s: Scp02Session, rapdu: Seq<u8>)
    requires
        s.0 < store.scp02.len(),
        response_unwrapped_by(store, s, rapdu).0 is Err,
    ensures
        ({
            let after = response_unwrapped_by(store, s, rapdu).1;
            &&& held(after.scp02, s.0) is None
            &&& forall|capdu: Seq<u8>| #[trigger] command_wrapped_by(after, s, capdu).0 is Err
            &&& forall|other: Seq<u8>| #[trigger] response_unwrapped_by(after, s, other).0 is Err
            &&& forall|i: u16|
                i != s.0 ==> #[trigger] held(after.scp02, i) == held(store.scp02, i)
        }),
{
}

/// The level is set once, by EXTERNAL AUTHENTICATE: it is that command's P1, and
/// no later command changes it.
pub proof fn law_level_is_latched(slot: Scp02Model, capdu: Seq<u8>)
    requires
        command_wrapped(slot, capdu) is Ok,
    ensures
        ({
            let after = command_wrapped(slot, capdu)->Ok_0.1;
            &&& after.authed
            &&& slot.authed ==> after.level == slot.level
            &&& !slot.authed ==> capdu[1] == 0x82 && after.level == capdu[2]
        }),
{
}

/// The MAC of EXTERNAL AUTHENTICATE starts both chains, that of the commands and
/// that of the responses.
pub proof fn law_first_mac_starts_both_chains(slot: Scp02Model, capdu: Seq<u8>)
    requires
        command_wrapped(slot, capdu) is Ok,
        !slot.authed,
    ensures
        ({
            let (out, after) = command_wrapped(slot, capdu)->Ok_0;
            &&& after.icv == after.ricv
            &&& after.icv == command_mac(slot, capdu, command_data(capdu)->Ok_0)
            &&& after.icv_valid
        }),
{
}

/// Every command MAC covers the one before it: the MAC that ends a command is the
/// chaining value of the next, and the keys stay.
pub proof fn law_command_macs_are_chained(slot: Scp02Model, capdu: Seq<u8>)
    requires
        command_wrapped(slot, capdu) is Ok,
    ensures
        ({
            let (out, after) = command_wrapped(slot, capdu)->Ok_0;
            let data = command_data(capdu)->Ok_0;
            &&& after.icv_valid
            &&& after.icv == command_mac(slot, capdu, data)
            &&& out == secure_header(capdu, command_body(slot, data).len() as int) + command_body(
                slot,
                data,
            ) + after.icv
            &&& after.s_enc == slot.s_enc && after.s_mac == slot.s_mac && after.s_rmac
                == slot.s_rmac && after.s_dek == slot.s_dek
        }),
{
}

/// Where the level asks for no response MAC a response is handed on as it is.
pub proof fn law_bare_responses_pass(slot: Scp02Model, rapdu: Seq<u8>)
    requires
        slot.authed,
        slot.level & 0x10 == 0,
        2 <= rapdu.len() <= RAPDU_MAX,
    ensures
        response_unwrapped(slot, rapdu) == Ok::<(Seq<u8>, Seq<u8>), BackendError>(
            (rapdu, slot.ricv),
        ),
{
}

/// A response that a card MACed comes out as its data and its status word, and
/// the MAC is the chaining value of the next one.
pub proof fn law_macced_responses_are_recovered(slot: Scp02Model, data: Seq<u8>, sw: Seq<u8>)
    requires
        slot.authed,
        slot.level & 0x10 != 0,
        sw.len() == 2,
        data.len() + 2 <= RAPDU_MAX,
        slot.rmac_buf.len() <= 260,
    ensures
        ({
            let mac = retail_mac_of(slot.s_rmac, slot.ricv, rmac_input(slot, data, sw));
            response_unwrapped(slot, data + mac + sw) == Ok::<(Seq<u8>, Seq<u8>), BackendError>(
                (data + sw, mac),
            )
        }),
{
    let mac = retail_mac_of(slot.s_rmac, slot.ricv, rmac_input(slot, data, sw));
    law_retail_mac_length(slot.s_rmac, slot.ricv, rmac_input(slot, data, sw));
    let rapdu = data + mac + sw;
    let body = rapdu.take(rapdu.len() - 2);
    assert(rapdu.skip(rapdu.len() - 2) =~= sw);
    assert(body =~= data + mac);
    assert(body.take(body.len() - 8) =~= data);
    assert(body.skip(body.len() - 8) =~= mac);
}

/// A slot that was given back can be taken again.
pub proof fn law_closed_slots_are_reused(store: Store, s: Scp02Session)
    requires
        s.0 < store.scp02.len(),
    ensures
        held(session_closed(store, s).scp02, s.0) is None,
        first_free(session_closed(store, s).scp02) is Some,
        first_free(session_closed(store, s).scp02)->Some_0 <= s.0,
{
    crate::rustcrypto::scp03::lemma_some_free(session_closed(store, s).scp02, s.0 as nat);
}

// ---- The operations --------------------------------------------------------

/// A session key.
fn derive_one(base: &[u8], c0: u8, c1: u8, counter: [u8; 2]) -> (r: Secret)
    requires
        base@.len() == 16,
    ensures
        r@ == session_key(base@, seq![c0, c1], counter@),
        r@.len() == 16,
{
    let mut buf: [u8; 16] = [0u8; 16];
    buf[0] = c0;
    buf[1] = c1;
    buf[2] = counter[0];
    buf[3] = counter[1];
    let zero: [u8; DES_BLOCK] = [0u8; DES_BLOCK];
    proof {
        assert(zero@ =~= zeros(8));
        assert(buf@ =~= seq![c0, c1] + counter@ + zeros(12));
        assert(buf@.take(16) =~= buf@);
    }
    let ghost input = buf@;
    match tdes_cbc_encrypt(base, zero, &mut buf, 16) {
        Ok(_) => {},
        Err(_) => vstd::pervasive::unreached(),
    }
    assert(buf@ =~= tdes_chain(base@, zeros(8), input));
    let secret = Secret::from_slice(&buf);
    wipe(&mut buf);
    match secret {
        Some(s) => s,
        None => vstd::pervasive::unreached(),
    }
}

/// Triple DES of eight bytes.
fn encrypt_block(key: &[u8], block: &[u8]) -> (r: [u8; DES_BLOCK])
    requires
        key@.len() == 16,
        block@.len() == 8,
    ensures
        r@ == tdes_block(key@, block@),
{
    let input: [u8; DES_BLOCK] = [
        block[0],
        block[1],
        block[2],
        block[3],
        block[4],
        block[5],
        block[6],
        block[7],
    ];
    assert(input@ =~= block@);
    let mut out: [u8; DES_BLOCK] = [0u8; DES_BLOCK];
    match tdes_ecb_block(key, input, &mut out) {
        Ok(()) => out,
        Err(_) => vstd::pervasive::unreached(),
    }
}

/// The retail MAC of a short input.
fn mac_of(key: &[u8], start: [u8; DES_BLOCK], data: &[u8]) -> (r: [u8; DES_BLOCK])
    requires
        key@.len() == 16,
        data@.len() <= RMAC_INPUT_MAX,
    ensures
        r@ == retail_mac_of(key@, start@, data@),
{
    proof {
        law_unpad_inverts_pad(data@, 8);
    }
    let mut scratch: Vec<u8> = zeroed(RMAC_INPUT_MAX + DES_BLOCK);
    match retail_mac(key, start, data, scratch.as_mut_slice()) {
        Ok(mac) => mac,
        Err(_) => vstd::pervasive::unreached(),
    }
}

/// Pads and encrypts `data` from zero.
fn encrypt_padded(key: &[u8], data: &[u8]) -> (r: Vec<u8>)
    requires
        key@.len() == 16,
        data@.len() <= 1024,
    ensures
        r@ == tdes_chain(key@, zeros(8), padded(data@, 8)),
        r@.len() == data@.len() - data@.len() % 8 + 8,
{
    proof {
        law_unpad_inverts_pad(data@, 8);
    }
    let mut scratch: Vec<u8> = vstd::slice::slice_to_vec(data);
    let room: Vec<u8> = zeroed(DES_BLOCK);
    scratch.extend_from_slice(room.as_slice());
    assert(scratch@.take(data@.len() as int) =~= data@);
    let n: usize = match pad80_8(scratch.as_mut_slice(), data.len()) {
        Ok(n) => n,
        Err(_) => vstd::pervasive::unreached(),
    };
    assert(scratch@.take(n as int) =~= padded(data@, 8));
    let zero: [u8; DES_BLOCK] = [0u8; DES_BLOCK];
    assert(zero@ =~= zeros(8));
    match tdes_cbc_encrypt(key, zero, scratch.as_mut_slice(), n) {
        Ok(_) => {},
        Err(_) => vstd::pervasive::unreached(),
    }
    scratch.truncate(n);
    assert(scratch@ =~= tdes_chain(key@, zeros(8), padded(data@, 8)));
    scratch
}

impl Scp02SessionSlot {
    /// The initial value of the next command MAC.
    fn start(&self) -> (r: [u8; DES_BLOCK])
        ensures
            r@ == mac_start(self.model()),
    {
        proof {
            use_type_invariant(self);
        }
        let mut icv: [u8; DES_BLOCK] = [0u8; DES_BLOCK];
        assert(icv@ =~= zeros(8));
        if self.icv_valid {
            let k1: &[u8] = &self.s_mac.as_slice()[0..DES_BLOCK];
            assert(k1@ =~= self.s_mac@.take(8));
            match des_ecb_block(k1, self.icv, &mut icv) {
                Ok(()) => {},
                Err(_) => vstd::pervasive::unreached(),
            }
        }
        icv
    }

    /// Protects a command.
    fn wrap(&mut self, capdu: &[u8]) -> (r: Result<Capdu, BackendError>)
        requires
            capdu@.len() >= 4,
        ensures
            match command_wrapped(old(self).model(), capdu@) {
                Ok((out, after)) => r matches Ok(c) && capdu_bytes(c) == out && final(self).model()
                    == after,
                Err(e) => r matches Err(x) && x == e && final(self).model() == old(self).model(),
            },
            scp02_sound(old(self).model()),
    {
        proof {
            use_type_invariant(&*self);
        }
        let ghost m = self.model();
        let lc: usize = if capdu.len() > 4 {
            capdu[4] as usize
        } else {
            0
        };
        if capdu.len() > 4 && capdu.len() < 5 + lc {
            return Err(BackendError::Crypto(Detail::Fixed("C-APDU Lc exceeds buffer")));
        }
        let none: &[u8] = &[];
        let data: &[u8] = if capdu.len() > 4 {
            &capdu[5..5 + lc]
        } else {
            none
        };
        assert(data@ =~= command_data(capdu@)->Ok_0);
        if !self.authed && capdu[1] != EXTERNAL_AUTHENTICATE {
            return Err(
                BackendError::Crypto(Detail::Fixed("first wrap must be EXTERNAL AUTHENTICATE")),
            );
        }
        let body: Vec<u8> = if self.authed && self.level & SL_CDEC != 0 && data.len() > 0 {
            encrypt_padded(self.s_enc.as_slice(), data)
        } else {
            vstd::slice::slice_to_vec(data)
        };
        assert(body@ =~= command_body(m, data@));
        if data.len() + 8 > 255 || body.len() + 8 > 255 {
            return Err(BackendError::Crypto(Detail::Fixed("wrapped Lc exceeds short APDU")));
        }
        let start: [u8; DES_BLOCK] = self.start();
        let signed: [u8; 5] = [
            capdu[0] | 0x04,
            capdu[1],
            capdu[2],
            capdu[3],
            (data.len() + 8) as u8,
        ];
        assert(signed@ =~= secure_header(capdu@, data@.len() as int));
        let mut mac_in: Vec<u8> = Vec::new();
        mac_in.extend_from_slice(&signed);
        mac_in.extend_from_slice(data);
        assert(mac_in@ =~= secure_header(capdu@, data@.len() as int) + data@);
        let mac: [u8; DES_BLOCK] = mac_of(self.s_mac.as_slice(), start, mac_in.as_slice());
        let header: [u8; 5] = [
            capdu[0] | 0x04,
            capdu[1],
            capdu[2],
            capdu[3],
            (body.len() + 8) as u8,
        ];
        assert(header@ =~= secure_header(capdu@, body@.len() as int));
        let mut out: Capdu = capdu_new();
        if capdu_extend(&mut out, &header).is_err() || capdu_extend(
            &mut out,
            body.as_slice(),
        ).is_err() || capdu_extend(&mut out, &mac).is_err() {
            vstd::pervasive::unreached()
        }
        assert(capdu_bytes(out) =~= header@ + body@ + mac@);
        let latched: u8 = if self.authed {
            self.level
        } else {
            capdu[2]
        };
        if !self.authed {
            self.ricv = mac;
        }
        if self.authed && latched & SL_RMAC != 0 {
            let head: [u8; 5] = [
                capdu[0] & 0xF8,
                capdu[1],
                capdu[2],
                capdu[3],
                data.len() as u8,
            ];
            let mut stripped: Vec<u8> = Vec::new();
            stripped.extend_from_slice(&head);
            stripped.extend_from_slice(data);
            assert(stripped@ =~= stripped_command(capdu@, data@));
            self.rmac_buf = stripped;
        }
        self.icv = mac;
        self.icv_valid = true;
        self.level = latched;
        self.authed = true;
        Ok(out)
    }

    /// What a response with a MAC says, and its MAC.
    fn unwrap_rmac(&self, rapdu: &[u8]) -> (r: Result<(Rapdu, [u8; DES_BLOCK]), BackendError>)
        requires
            rapdu@.len() >= 2,
            self.model().authed,
            self.model().level & 0x10 != 0,
        ensures
            unwrapped_view(r) == response_unwrapped(self.model(), rapdu@),
    {
        proof {
            use_type_invariant(self);
        }
        let split: usize = rapdu.len() - 2;
        let body: &[u8] = &rapdu[0..split];
        let sw: &[u8] = &rapdu[split..rapdu.len()];
        proof {
            assert(body@ =~= rapdu@.take(split as int));
            assert(sw@ =~= rapdu@.skip(split as int));
        }
        if body.len() < 8 {
            return Err(BackendError::Crypto(Detail::Fixed("R-APDU too short for R-MAC")));
        }
        let n: usize = body.len() - 8;
        let data: &[u8] = &body[0..n];
        let rmac: &[u8] = &body[n..body.len()];
        proof {
            assert(data@ =~= body@.take(n as int));
            assert(rmac@ =~= body@.skip(n as int));
        }
        if n > RMAC_INPUT_MAX - 3 - self.rmac_buf.len() {
            return Err(BackendError::Crypto(Detail::Fixed("buffer overflow")));
        }
        let len: [u8; 1] = [(n % 256) as u8];
        let mut input: Vec<u8> = Vec::new();
        input.extend_from_slice(self.rmac_buf.as_slice());
        input.extend_from_slice(&len);
        input.extend_from_slice(data);
        input.extend_from_slice(sw);
        assert(input@ =~= rmac_input(self.model(), data@, sw@));
        let mac: [u8; DES_BLOCK] = mac_of(self.s_rmac.as_slice(), self.ricv, input.as_slice());
        if !ct_equal(&mac, rmac) {
            return Err(BackendError::Crypto(Detail::Fixed("R-MAC verification failed")));
        }
        let mut out: Vec<u8> = Vec::new();
        out.extend_from_slice(data);
        out.extend_from_slice(sw);
        assert(out@ =~= data@ + sw@);
        match rapdu_from_slice(out.as_slice()) {
            Ok(v) => Ok((v, mac)),
            Err(_) => Err(BackendError::Crypto(Detail::Fixed("buffer overflow"))),
        }
    }

    /// What a response says, and the response chaining value after it.
    fn unwrap_inner(&self, rapdu: &[u8]) -> (r: Result<(Rapdu, [u8; DES_BLOCK]), BackendError>)
        ensures
            unwrapped_view(r) == response_unwrapped(self.model(), rapdu@),
    {
        if !self.authed {
            return Err(BackendError::Crypto(Detail::Fixed("unwrap before authentication")));
        }
        if rapdu.len() < 2 {
            return Err(BackendError::Crypto(Detail::Fixed("R-APDU shorter than SW")));
        }
        if self.level & SL_RMAC != 0 {
            self.unwrap_rmac(rapdu)
        } else {
            match rapdu_from_slice(rapdu) {
                Ok(v) => Ok((v, self.ricv)),
                Err(_) => Err(BackendError::Crypto(Detail::Fixed("buffer overflow"))),
            }
        }
    }

    /// Takes over the response chaining value.
    fn advance(&mut self, mac: [u8; DES_BLOCK])
        ensures
            final(self).model() == (Scp02Model {
                ricv: mac@,
                rmac_buf: Seq::empty(),
                ..old(self).model()
            }),
    {
        proof {
            use_type_invariant(&*self);
        }
        self.ricv = mac;
        self.rmac_buf = Vec::new();
        assert(self.rmac_buf@ =~= Seq::empty());
    }

    /// Wipes the keys of a session that is given up.
    pub(crate) fn into_wiped(self) -> (r: (Secret, Secret, Secret, Secret))
        ensures
            r.0.wiped() && r.1.wiped() && r.2.wiped() && r.3.wiped(),
    {
        let Scp02SessionSlot { mut s_enc, mut s_mac, mut s_rmac, mut s_dek, .. } = self;
        s_enc.wipe();
        s_mac.wipe();
        s_rmac.wipe();
        s_dek.wipe();
        (s_enc, s_mac, s_rmac, s_dek)
    }
}

/// The content of an unwrapped response.
pub open spec fn unwrapped_view(r: Result<(Rapdu, [u8; 8]), BackendError>) -> Result<
    (Seq<u8>, Seq<u8>),
    BackendError,
> {
    match r {
        Ok((out, mac)) => Ok((rapdu_bytes(out), mac@)),
        Err(e) => Err(e),
    }
}

impl<R> RustCryptoBackend<R> {
    /// A double-length DES key by its handle.
    fn tdes_key(&self, h: KeyHandle) -> (r: Result<&[u8], BackendError>)
        ensures
            match tdes_key_of(self.store(), h) {
                Ok(key) => r matches Ok(k) && k@ == key && k@.len() == 16,
                Err(e) => r matches Err(x) && x == e,
            },
    {
        let slot: &KeySlot = match self.key_slot(h) {
            Some(s) => s,
            None => return Err(BackendError::Crypto(Detail::Fixed("key handle invalid"))),
        };
        match slot.kind {
            KeyKind::TripleDesDouble => Ok(slot.key.as_slice()),
            _ => Err(BackendError::Crypto(Detail::Fixed("SCP02 needs a 3DES double-length key"))),
        }
    }

    /// A key that is put into a key payload, by its handle.
    fn payload_key02(&self, h: KeyHandle) -> (r: Result<&[u8], BackendError>)
        ensures
            match payload_key_of(self.store(), h) {
                Ok(key) => r matches Ok(k) && k@ == key && k@.len() == 16,
                Err(e) => r matches Err(x) && x == e,
            },
    {
        let slot: &KeySlot = match self.key_slot(h) {
            Some(s) => s,
            None => return Err(BackendError::Crypto(Detail::Fixed("key handle invalid"))),
        };
        match slot.kind {
            KeyKind::TripleDesDouble => Ok(slot.key.as_slice()),
            _ => Err(
                BackendError::Unsupported(Detail::Fixed("SCP02 needs a 3DES double-length key")),
            ),
        }
    }

    /// A session by its handle.
    fn session02(&self, s: Scp02Session) -> (r: Result<&Scp02SessionSlot, BackendError>)
        ensures
            match held(self.store().scp02, s.0) {
                Some(m) => r matches Ok(slot) && slot.model() == m,
                None => r matches Err(e) && e == BackendError::Crypto(
                    Detail::Fixed("session handle invalid"),
                ),
            },
    {
        let i: usize = s.index() as usize;
        if i >= MAX_SESSION_SLOTS {
            return Err(BackendError::Crypto(Detail::Fixed("session handle invalid")));
        }
        match &self.scp02_sessions[i] {
            Some(slot) => Ok(slot),
            None => Err(BackendError::Crypto(Detail::Fixed("session handle invalid"))),
        }
    }

    /// Keeps a session in the first free slot.
    fn store_session02(&mut self, slot: Scp02SessionSlot) -> (r: Result<Scp02Session, BackendError>)
        ensures
            match first_free(old(self).store().scp02) {
                Some(n) => {
                    &&& r == Ok::<Scp02Session, BackendError>(Scp02Session(n as u16))
                    &&& final(self).store() == (Store {
                        scp02: old(self).store().scp02.update(n as int, Some(slot.model())),
                        ..old(self).store()
                    })
                },
                None => {
                    &&& r == Err::<Scp02Session, BackendError>(
                        BackendError::KeyGen(Detail::Fixed("session table full")),
                    )
                    &&& final(self).store() == old(self).store()
                },
            },
            final(self).log == old(self).log,
            final(self).rng == old(self).rng,
    {
        let mut i: usize = 0;
        while i < MAX_SESSION_SLOTS
            invariant
                i <= MAX_SESSION_SLOTS,
                *self == *old(self),
                forall|j: int| 0 <= j < i ==> #[trigger] self.store().scp02[j] is Some,
            decreases MAX_SESSION_SLOTS - i,
        {
            if self.scp02_sessions[i].is_none() {
                proof {
                    lemma_first_free(self.store().scp02, i as nat);
                }
                let ghost m = slot.model();
                self.scp02_sessions[i] = Some(slot);
                proof {
                    assert(self.store().scp02 =~= old(self).store().scp02.update(
                        i as int,
                        Some(m),
                    ));
                }
                return Ok(Scp02Session::new(i as u16));
            }
            i = i + 1;
        }
        proof {
            lemma_first_free(self.store().scp02, MAX_SESSION_SLOTS as nat);
        }
        let _wiped = slot.into_wiped();
        Err(BackendError::KeyGen(Detail::Fixed("session table full")))
    }

    /// Derives a session.
    fn derive02(&mut self, enc: KeyHandle, mac: KeyHandle, dek: KeyHandle, counter: [u8; 2]) -> (r:
        Result<Scp02Session, BackendError>)
        ensures
            (r, final(self).store()) == session_derived(
                old(self).store(),
                enc,
                mac,
                dek,
                counter@,
            ),
            final(self).log == old(self).log,
            final(self).rng == old(self).rng,
    {
        let slot: Scp02SessionSlot = {
            let k_enc: &[u8] = self.tdes_key(enc)?;
            let k_mac: &[u8] = self.tdes_key(mac)?;
            let k_dek: &[u8] = self.tdes_key(dek)?;
            let slot: Scp02SessionSlot = Scp02SessionSlot {
                s_enc: derive_one(k_enc, 0x01, 0x82, counter),
                s_mac: derive_one(k_mac, 0x01, 0x01, counter),
                s_rmac: derive_one(k_mac, 0x01, 0x02, counter),
                s_dek: derive_one(k_dek, 0x01, 0x81, counter),
                icv: [0u8; 8],
                icv_valid: false,
                ricv: [0u8; 8],
                rmac_buf: Vec::new(),
                level: 0,
                authed: false,
            };
            proof {
                assert(slot.icv@ =~= zeros(8));
                assert(slot.ricv@ =~= zeros(8));
                assert(slot.rmac_buf@ =~= Seq::empty());
                assert(slot.model() == fresh_session(k_enc@, k_mac@, k_dek@, counter@));
            }
            slot
        };
        self.store_session02(slot)
    }

    /// A cryptogram.
    fn cryptogram02(&self, s: Scp02Session, head: &[u8; 8], tail: &[u8; 8]) -> (r: Result<
        [u8; 8],
        BackendError,
    >)
        ensures
            array_result(r) == cryptogram_of(self.store(), s, head@, tail@),
    {
        let slot: &Scp02SessionSlot = self.session02(s)?;
        proof {
            use_type_invariant(slot);
        }
        let mut input: Vec<u8> = Vec::new();
        input.extend_from_slice(head);
        input.extend_from_slice(tail);
        proof {
            assert(input@ =~= head@ + tail@);
            law_unpad_inverts_pad(input@, 8);
        }
        let zero: [u8; DES_BLOCK] = [0u8; DES_BLOCK];
        assert(zero@ =~= zeros(8));
        let mut scratch: [u8; 24] = [0u8; 24];
        tdes_mac(slot.s_enc.as_slice(), zero, input.as_slice(), &mut scratch)
    }

    /// A new key under the session's key encryption key.
    fn key_payload02(&self, s: Scp02Session, new_key: KeyHandle) -> (r: Result<
        EncKeyBlock,
        BackendError,
    >)
        ensures
            block_result(r) == key_payload_of(self.store(), s, new_key),
    {
        let slot: &Scp02SessionSlot = match self.session02(s) {
            Ok(slot) => slot,
            Err(_) => return Err(
                BackendError::Unsupported(Detail::Fixed("session handle invalid")),
            ),
        };
        proof {
            use_type_invariant(slot);
        }
        let key: &[u8] = self.payload_key02(new_key)?;
        let first: &[u8] = &key[0..8];
        let second: &[u8] = &key[8..16];
        proof {
            assert(first@ =~= key@.take(8));
            assert(second@ =~= key@.skip(8));
        }
        let dek: &[u8] = slot.s_dek.as_slice();
        let mut out: Vec<u8> = Vec::new();
        out.extend_from_slice(&encrypt_block(dek, first));
        out.extend_from_slice(&encrypt_block(dek, second));
        assert(out@ =~= tdes_block(dek@, first@) + tdes_block(dek@, second@));
        match block_from_slice(out.as_slice()) {
            Ok(v) => Ok(v),
            Err(_) => vstd::pervasive::unreached(),
        }
    }

    /// Protects a command.
    fn wrap02(&mut self, s: Scp02Session, capdu: &[u8]) -> (r: Result<Capdu, BackendError>)
        ensures
            (capdu_result(r), final(self).store()) == command_wrapped_by(
                old(self).store(),
                s,
                capdu@,
            ),
            r is Ok ==> (held(old(self).store().scp02, s.0) matches Some(slot) && scp02_sound(
                slot,
            )),
            final(self).log == old(self).log,
            final(self).rng == old(self).rng,
    {
        if capdu.len() < 4 {
            return Err(BackendError::Crypto(Detail::Fixed("C-APDU shorter than header")));
        }
        let i: usize = s.index() as usize;
        if i >= MAX_SESSION_SLOTS {
            return Err(BackendError::Crypto(Detail::Fixed("session handle invalid")));
        }
        let ghost before = self.store();
        let r: Result<Capdu, BackendError> = match &mut self.scp02_sessions[i] {
            Some(slot) => slot.wrap(capdu),
            None => Err(BackendError::Crypto(Detail::Fixed("session handle invalid"))),
        };
        proof {
            let after = command_wrapped_by(before, s, capdu@).1;
            assert(self.store().scp02 =~= after.scp02);
        }
        r
    }

    /// Gives a session up.
    fn close02(&mut self, s: Scp02Session)
        ensures
            final(self).store() == session_closed(old(self).store(), s),
            final(self).log == old(self).log,
            final(self).rng == old(self).rng,
    {
        let i: usize = s.index() as usize;
        if i < MAX_SESSION_SLOTS {
            let gone: Option<Scp02SessionSlot> = self.scp02_sessions[i].take();
            if let Some(slot) = gone {
                let _wiped = slot.into_wiped();
            }
            assert(self.store().scp02 =~= session_closed(old(self).store(), s).scp02);
        }
    }

    /// Verifies a response.
    fn unwrap02(&mut self, s: Scp02Session, rapdu: &[u8]) -> (r: Result<Rapdu, BackendError>)
        ensures
            (rapdu_result(r), final(self).store()) == response_unwrapped_by(
                old(self).store(),
                s,
                rapdu@,
            ),
            final(self).log == old(self).log,
            final(self).rng == old(self).rng,
    {
        let ghost before = self.store();
        let r: Result<(Rapdu, [u8; DES_BLOCK]), BackendError> = {
            let slot: &Scp02SessionSlot = self.session02(s)?;
            slot.unwrap_inner(rapdu)
        };
        match r {
            Ok((out, mac)) => {
                let i: usize = s.index() as usize;
                if let Some(slot) = &mut self.scp02_sessions[i] {
                    slot.advance(mac);
                }
                proof {
                    let after = response_unwrapped_by(before, s, rapdu@).1;
                    assert(self.store().scp02 =~= after.scp02);
                }
                Ok(out)
            },
            Err(e) => {
                self.close02(s);
                Err(e)
            },
        }
    }
}

impl<R: RandomSource> Scp02Backend for RustCryptoBackend<R> {
    fn scp02_derive_session(
        &mut self,
        base_enc: &KeyHandle,
        base_mac: &KeyHandle,
        base_dek: &KeyHandle,
        seq_counter: [u8; 2],
    ) -> (r: Result<Scp02Session, BackendError>)
        ensures
            (r, final(self).store()) == session_derived(
                old(self).store(),
                *base_enc,
                *base_mac,
                *base_dek,
                seq_counter@,
            ),
            final(self).draws() == old(self).draws(),
    {
        let r: Result<Scp02Session, BackendError> = self.derive02(
            *base_enc,
            *base_mac,
            *base_dek,
            seq_counter,
        );
        self.log = Ghost(
            self.log@.push(
                Event::Derive02 {
                    enc: *base_enc,
                    mac: *base_mac,
                    dek: *base_dek,
                    counter: seq_counter@,
                    result: r,
                },
            ),
        );
        r
    }

    fn scp02_card_cryptogram(
        &mut self,
        s: &Scp02Session,
        host_ch: &[u8; 8],
        card_ch: &[u8; 8],
    ) -> (r: Result<[u8; 8], BackendError>)
        ensures
            array_result(r) == cryptogram_of(old(self).store(), *s, host_ch@, card_ch@),
            final(self).store() == old(self).store(),
            final(self).draws() == old(self).draws(),
    {
        let r: Result<[u8; 8], BackendError> = self.cryptogram02(*s, host_ch, card_ch);
        self.log = Ghost(
            self.log@.push(
                Event::CardCryptogram02 {
                    session: *s,
                    host: host_ch@,
                    card: card_ch@,
                    result: array_result(r),
                },
            ),
        );
        r
    }

    fn scp02_host_cryptogram(
        &mut self,
        s: &Scp02Session,
        host_ch: &[u8; 8],
        card_ch: &[u8; 8],
    ) -> (r: Result<[u8; 8], BackendError>)
        ensures
            array_result(r) == cryptogram_of(old(self).store(), *s, card_ch@, host_ch@),
            final(self).store() == old(self).store(),
            final(self).draws() == old(self).draws(),
    {
        let r: Result<[u8; 8], BackendError> = self.cryptogram02(*s, card_ch, host_ch);
        self.log = Ghost(
            self.log@.push(
                Event::HostCryptogram02 {
                    session: *s,
                    host: host_ch@,
                    card: card_ch@,
                    result: array_result(r),
                },
            ),
        );
        r
    }

    fn scp02_wrap_command(&mut self, s: &mut Scp02Session, capdu: &[u8]) -> (r: Result<
        Capdu,
        BackendError,
    >)
        ensures
            (capdu_result(r), final(self).store()) == command_wrapped_by(
                old(self).store(),
                *old(s),
                capdu@,
            ),
            r is Ok ==> (held(old(self).store().scp02, old(s).0) matches Some(slot) && scp02_sound(
                slot,
            )),
            *final(s) == *old(s),
            final(self).draws() == old(self).draws(),
    {
        let r: Result<Capdu, BackendError> = self.wrap02(*s, capdu);
        self.log = Ghost(
            self.log@.push(
                Event::Wrap02 {
                    session: *s,
                    after: *s,
                    command: capdu@,
                    result: capdu_result(r),
                },
            ),
        );
        r
    }

    fn scp02_unwrap_response(&mut self, s: &mut Scp02Session, rapdu: &[u8]) -> (r: Result<
        Rapdu,
        BackendError,
    >)
        ensures
            (rapdu_result(r), final(self).store()) == response_unwrapped_by(
                old(self).store(),
                *old(s),
                rapdu@,
            ),
            *final(s) == *old(s),
            final(self).draws() == old(self).draws(),
    {
        let r: Result<Rapdu, BackendError> = self.unwrap02(*s, rapdu);
        self.log = Ghost(
            self.log@.push(
                Event::Unwrap02 {
                    session: *s,
                    after: *s,
                    response: rapdu@,
                    result: rapdu_result(r),
                },
            ),
        );
        r
    }

    fn scp02_encrypt_put_key_payload_for_session(
        &mut self,
        s: &Scp02Session,
        new_key: &KeyHandle,
    ) -> (r: Result<EncKeyBlock, BackendError>)
        ensures
            block_result(r) == key_payload_of(old(self).store(), *s, *new_key),
            final(self).store() == old(self).store(),
            final(self).draws() == old(self).draws(),
    {
        let r: Result<EncKeyBlock, BackendError> = self.key_payload02(*s, *new_key);
        self.log = Ghost(
            self.log@.push(
                Event::EncryptKey02 { session: *s, key: *new_key, result: block_result(r) },
            ),
        );
        r
    }

    fn scp02_close_session(&mut self, s: Scp02Session)
        ensures
            final(self).store() == session_closed(old(self).store(), s),
            final(self).draws() == old(self).draws(),
    {
        self.close02(s);
        self.log = Ghost(self.log@.push(Event::Close02 { session: s }));
    }
}

} // verus!
