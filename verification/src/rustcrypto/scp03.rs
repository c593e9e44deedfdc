//! The SCP03 operations of the software backend (Amendment D).
use vstd::prelude::*;

use crate::backend::{
    block_result, capdu_result, field_result, rapdu_result, Event, KeyHandle, KeyKind,
    Scp03Backend, Scp03Session, ScpMode,
};
use crate::buffers::{
    block_from_slice, capdu_bytes, capdu_extend, capdu_new, field_bytes, field_from_slice,
    rapdu_from_slice, Capdu, EncKeyBlock, Field, Rapdu,
};
use crate::error::{BackendError, Detail};
use crate::limits::{CAPDU_MAX, RAPDU_MAX};
use crate::rustcrypto::crypto::{
    aes_block, aes_cbc, aes_cbc_decrypt, aes_cbc_encrypt, aes_cmac, aes_ecb_block, aes_uncbc,
    cmac_tag, derived, is_aes_key, kdf, law_unpad_inverts_pad, pad80, padded, padding_start,
    unpad80, zeroed, zeros, BLOCK,
};
use crate::rustcrypto::key::ct_equal;
use crate::rustcrypto::soundness::scp03_sound;
use crate::rustcrypto::{
    first_free, held, lemma_first_free, KeySlot, RandomSource, RustCryptoBackend, Scp03Model,
    Scp03SessionSlot, Store, MAX_SESSION_SLOTS,
};
use crate::secret::{wipe, Secret};

verus! {

/// Command encryption.
const SL_CENC: u8 = 0x02;

/// Response MAC.
const SL_RMAC: u8 = 0x10;

/// Response encryption.
const SL_RENC: u8 = 0x20;

const DC_CARD_CRYPTO: u8 = 0x00;

const DC_HOST_CRYPTO: u8 = 0x01;

const DC_CARD_CHALLENGE: u8 = 0x02;

const DC_S_ENC: u8 = 0x04;

const DC_S_MAC: u8 = 0x06;

const DC_S_RMAC: u8 = 0x07;

const EXTERNAL_AUTHENTICATE: u8 = 0x82;

/// Longest derivation context of a session: two challenges.
const CONTEXT_MAX: usize = 32;

/// Longest derivation context of a card challenge: a counter and an identifier.
const CHALLENGE_CONTEXT_MAX: usize = 19;

// ---- Keys ------------------------------------------------------------------

/// An AES key by its handle.
pub open spec fn aes_key_of(store: Store, h: KeyHandle) -> Result<Seq<u8>, BackendError> {
    match held(store.keys, h.0) {
        None => Err(BackendError::Crypto(Detail::Fixed("key handle invalid"))),
        Some(key) => if key.kind is TripleDesDouble {
            Err(BackendError::Crypto(Detail::Fixed("SCP03 needs an AES key")))
        } else {
            Ok(key.bytes)
        },
    }
}

/// A key that takes part in a key payload, by its handle. A key of another kind than AES
/// is not supported there.
pub open spec fn payload_key_of(store: Store, h: KeyHandle) -> Result<Seq<u8>, BackendError> {
    match held(store.keys, h.0) {
        None => Err(BackendError::Crypto(Detail::Fixed("key handle invalid"))),
        Some(key) => if key.kind is TripleDesDouble {
            Err(BackendError::Unsupported(Detail::Fixed("SCP03 needs an AES key")))
        } else {
            Ok(key.bytes)
        },
    }
}

/// A fresh session: nothing is authenticated, and the chain is empty.
pub open spec fn fresh_session(
    enc: Seq<u8>,
    mac: Seq<u8>,
    mode: ScpMode,
    context: Seq<u8>,
) -> Scp03Model {
    let bits = (8 * enc.len()) as u16;
    Scp03Model {
        s_enc: derived(enc, 0x04, bits, context, enc.len()),
        s_mac: derived(mac, 0x06, bits, context, enc.len()),
        s_rmac: derived(mac, 0x07, bits, context, enc.len()),
        mode,
        chain: zeros(16),
        counter: 0,
        level: 0,
        authed: false,
    }
}

/// What deriving a session does.
pub open spec fn session_derived(
    store: Store,
    enc: KeyHandle,
    mac: KeyHandle,
    mode: ScpMode,
    host: Seq<u8>,
    card: Seq<u8>,
) -> (Result<Scp03Session, BackendError>, Store) {
    if host.len() != mode.width() || card.len() != mode.width() {
        (Err(BackendError::Crypto(Detail::Fixed("challenge length does not match mode"))), store)
    } else {
        match (aes_key_of(store, enc), aes_key_of(store, mac)) {
            (Err(e), _) => (Err(e), store),
            (_, Err(e)) => (Err(e), store),
            (Ok(k_enc), Ok(k_mac)) => if k_enc.len() != k_mac.len() {
                (Err(BackendError::Crypto(Detail::Fixed("ENC/MAC key lengths differ"))), store)
            } else {
                match first_free(store.scp03) {
                    None => (Err(BackendError::KeyGen(Detail::Fixed("session table full"))), store),
                    Some(n) => (
                        Ok(Scp03Session(n as u16)),
                        Store {
                            scp03: store.scp03.update(
                                n as int,
                                Some(fresh_session(k_enc, k_mac, mode, host + card)),
                            ),
                            ..store
                        },
                    ),
                }
            },
        }
    }
}

/// A cryptogram: `constant` is zero for the card's and one for the host's.
pub open spec fn cryptogram_of(
    store: Store,
    s: Scp03Session,
    host: Seq<u8>,
    card: Seq<u8>,
    constant: u8,
) -> Result<Seq<u8>, BackendError> {
    if host.len() + card.len() > 32 {
        Err(BackendError::Crypto(Detail::Fixed("context overflow")))
    } else {
        match held(store.scp03, s.0) {
            None => Err(BackendError::Crypto(Detail::Fixed("session handle invalid"))),
            Some(slot) => Ok(
                derived(
                    slot.s_mac,
                    constant,
                    (8 * slot.mode.width()) as u16,
                    host + card,
                    slot.mode.width(),
                ),
            ),
        }
    }
}

/// The card challenge that follows from a sequence counter and an identifier.
pub open spec fn card_challenge_of(
    store: Store,
    enc: KeyHandle,
    mode: ScpMode,
    counter: Seq<u8>,
    aid: Seq<u8>,
) -> Result<Seq<u8>, BackendError> {
    if aid.len() > 16 {
        Err(BackendError::Crypto(Detail::Fixed("challenge context overflow")))
    } else {
        match aes_key_of(store, enc) {
            Err(e) => Err(e),
            Ok(key) => Ok(
                derived(
                    key,
                    0x02,
                    (8 * mode.width()) as u16,
                    counter + aid,
                    mode.width(),
                ),
            ),
        }
    }
}

/// A new key under the key encryption key: CBC from zero, and padded only where
/// the key is not whole blocks.
pub open spec fn key_payload_of(store: Store, dek: KeyHandle, new_key: KeyHandle) -> Result<
    Seq<u8>,
    BackendError,
> {
    match (payload_key_of(store, dek), payload_key_of(store, new_key)) {
        (Err(e), _) => Err(e),
        (_, Err(e)) => Err(e),
        (Ok(k_dek), Ok(key)) => Ok(
            aes_cbc(
                k_dek,
                zeros(16),
                if key.len() % 16 == 0 {
                    key
                } else {
                    padded(key, 16)
                },
            ),
        ),
    }
}

// ---- Commands --------------------------------------------------------------

/// The block that is encrypted to the initial value of a command or a response.
pub open spec fn counter_octets(counter: u32, response: bool) -> Seq<u8> {
    seq![
        if response {
            0x80u8
        } else {
            0u8
        },
    ] + zeros(11) + seq![
        (counter / 0x100_0000) as u8,
        (counter / 0x1_0000 % 0x100) as u8,
        (counter / 0x100 % 0x100) as u8,
        (counter % 0x100) as u8,
    ]
}

/// The initial value of a command or a response.
pub open spec fn initial_value(key: Seq<u8>, counter: u32, response: bool) -> Seq<u8> {
    aes_block(key, counter_octets(counter, response))
}

/// The data of a command; nothing where it has none.
pub open spec fn command_data(capdu: Seq<u8>) -> Result<Seq<u8>, BackendError> {
    if capdu.len() <= 4 {
        Ok(Seq::empty())
    } else if capdu.len() < 5 + capdu[4] {
        Err(BackendError::Crypto(Detail::Fixed("C-APDU Lc exceeds buffer")))
    } else {
        Ok(capdu.subrange(5, 5 + capdu[4]))
    }
}

/// What follows the data of a command.
pub open spec fn command_tail(capdu: Seq<u8>) -> Seq<u8> {
    if capdu.len() <= 4 {
        Seq::empty()
    } else {
        capdu.skip(5 + capdu[4])
    }
}

/// The data as they are sent: encrypted where the level says so.
pub open spec fn command_body(slot: Scp03Model, counter: u32, data: Seq<u8>) -> Seq<u8> {
    if slot.authed && slot.level & 0x02 != 0 && data.len() > 0 {
        aes_cbc(slot.s_enc, initial_value(slot.s_enc, counter, false), padded(data, 16))
    } else {
        data
    }
}

/// The header as it is sent and MACed: with the secure messaging bit, and with
/// the length of body and MAC together.
pub open spec fn secure_header(capdu: Seq<u8>, len: int) -> Seq<u8> {
    seq![capdu[0] | 0x04, capdu[1], capdu[2], capdu[3], len as u8]
}

/// What protecting a command does: the bytes to send, and the session after it.
/// Before authentication only EXTERNAL AUTHENTICATE goes, and its P1 becomes the
/// level.
pub open spec fn command_wrapped(slot: Scp03Model, capdu: Seq<u8>) -> Result<
    (Seq<u8>, Scp03Model),
    BackendError,
> {
    match command_data(capdu) {
        Err(e) => Err(e),
        Ok(data) => if slot.authed && slot.counter == u32::MAX {
            Err(BackendError::Crypto(Detail::Fixed("command counter overflow")))
        } else if !slot.authed && capdu[1] != 0x82 {
            Err(BackendError::Crypto(Detail::Fixed("first wrap must be EXTERNAL AUTHENTICATE")))
        } else {
            let counter = if slot.authed {
                (slot.counter + 1) as u32
            } else {
                slot.counter
            };
            let body = command_body(slot, counter, data);
            let len = body.len() + slot.mode.width();
            if len > 255 {
                Err(BackendError::Crypto(Detail::Fixed("wrapped Lc exceeds short APDU")))
            } else {
                let header = secure_header(capdu, len as int);
                let mac = cmac_tag(slot.s_mac, slot.chain + header + body);
                let out = header + body + mac.take(slot.mode.width() as int) + command_tail(capdu);
                if out.len() > CAPDU_MAX {
                    Err(BackendError::Crypto(Detail::Fixed("buffer overflow")))
                } else {
                    Ok(
                        (
                            out,
                            Scp03Model {
                                chain: mac,
                                counter,
                                level: if slot.authed {
                                    slot.level
                                } else {
                                    capdu[2]
                                },
                                authed: true,
                                ..slot
                            },
                        ),
                    )
                }
            }
        },
    }
}

/// The same, by the session's handle. A command that cannot be protected leaves
/// everything as it was.
pub open spec fn command_wrapped_by(store: Store, s: Scp03Session, capdu: Seq<u8>) -> (
    Result<Seq<u8>, BackendError>,
    Store,
) {
    if capdu.len() < 4 {
        (Err(BackendError::Crypto(Detail::Fixed("C-APDU shorter than header"))), store)
    } else {
        match held(store.scp03, s.0) {
            None => (Err(BackendError::Crypto(Detail::Fixed("session handle invalid"))), store),
            Some(slot) => match command_wrapped(slot, capdu) {
                Err(e) => (Err(e), store),
                Ok((out, after)) => (
                    Ok(out),
                    Store { scp03: store.scp03.update(s.0 as int, Some(after)), ..store },
                ),
            },
        }
    }
}

// ---- Responses -------------------------------------------------------------

/// Only success and warnings are protected; an error comes bare.
pub open spec fn is_protected(sw: Seq<u8>) -> bool {
    ||| sw[0] == 0x90 && sw[1] == 0x00
    ||| sw[0] == 0x62
    ||| sw[0] == 0x63
}

/// The data of a response once its MAC is verified and taken off.
pub open spec fn verified_data(slot: Scp03Model, rapdu: Seq<u8>) -> Result<Seq<u8>, BackendError> {
    let body = rapdu.take(rapdu.len() - 2);
    let sw = rapdu.skip(rapdu.len() - 2);
    let width = slot.mode.width();
    if slot.level & 0x10 != 0 && is_protected(sw) {
        if body.len() < width {
            Err(BackendError::Crypto(Detail::Fixed("R-APDU too short for R-MAC")))
        } else {
            let data = body.take(body.len() - width);
            if data.len() + 2 > RAPDU_MAX {
                Err(BackendError::Crypto(Detail::Fixed("buffer overflow")))
            } else if cmac_tag(slot.s_rmac, slot.chain + data + sw).take(width as int)
                != body.skip(body.len() - width) {
                Err(BackendError::Crypto(Detail::Fixed("R-MAC verification failed")))
            } else {
                Ok(data)
            }
        }
    } else {
        Ok(body)
    }
}

/// The data in clear: decrypted and unpadded where the level says so.
pub open spec fn plain_data(slot: Scp03Model, data: Seq<u8>, sw: Seq<u8>) -> Result<
    Seq<u8>,
    BackendError,
> {
    if slot.level & 0x20 != 0 && is_protected(sw) && data.len() > 0 {
        if data.len() % 16 != 0 {
            Err(BackendError::Crypto(Detail::Fixed("R-ENC data not block-aligned")))
        } else if data.len() > RAPDU_MAX {
            Err(BackendError::Crypto(Detail::Fixed("response data too large")))
        } else {
            let plain = aes_uncbc(
                slot.s_enc,
                initial_value(slot.s_enc, slot.counter, true),
                data,
            );
            match padding_start(plain) {
                None => Err(BackendError::Crypto(Detail::Fixed("bad pad"))),
                Some(n) => Ok(plain.take(n as int)),
            }
        }
    } else {
        Ok(data)
    }
}

/// What a response says: its data in clear and its status word.
pub open spec fn response_unwrapped(slot: Scp03Model, rapdu: Seq<u8>) -> Result<
    Seq<u8>,
    BackendError,
> {
    if !slot.authed {
        Err(BackendError::Crypto(Detail::Fixed("unwrap before authentication")))
    } else if rapdu.len() < 2 {
        Err(BackendError::Crypto(Detail::Fixed("R-APDU shorter than SW")))
    } else {
        let sw = rapdu.skip(rapdu.len() - 2);
        match verified_data(slot, rapdu) {
            Err(e) => Err(e),
            Ok(data) => match plain_data(slot, data, sw) {
                Err(e) => Err(e),
                Ok(plain) => if plain.len() + 2 > RAPDU_MAX {
                    Err(BackendError::Crypto(Detail::Fixed("buffer overflow")))
                } else {
                    Ok(plain + sw)
                },
            },
        }
    }
}

/// The same, by the session's handle. Any failure closes the session.
pub open spec fn response_unwrapped_by(store: Store, s: Scp03Session, rapdu: Seq<u8>) -> (
    Result<Seq<u8>, BackendError>,
    Store,
) {
    match held(store.scp03, s.0) {
        None => (Err(BackendError::Crypto(Detail::Fixed("session handle invalid"))), store),
        Some(slot) => match response_unwrapped(slot, rapdu) {
            Ok(out) => (Ok(out), store),
            Err(e) => (Err(e), session_closed(store, s)),
        },
    }
}

/// The store without a session.
pub open spec fn session_closed(store: Store, s: Scp03Session) -> Store {
    if s.0 < store.scp03.len() {
        Store { scp03: store.scp03.update(s.0 as int, None), ..store }
    } else {
        store
    }
}

/// What a card answers: data in clear, a status word, and the protection that
/// the level asks for.
pub open spec fn card_response(slot: Scp03Model, plain: Seq<u8>, sw: Seq<u8>) -> Seq<u8> {
    let body = card_body(slot, plain);
    if slot.level & 0x10 != 0 {
        body + cmac_tag(slot.s_rmac, slot.chain + body + sw).take(slot.mode.width() as int) + sw
    } else {
        body + sw
    }
}

/// The data field of that answer.
pub open spec fn card_body(slot: Scp03Model, plain: Seq<u8>) -> Seq<u8> {
    if slot.level & 0x20 != 0 && plain.len() > 0 {
        aes_cbc(slot.s_enc, initial_value(slot.s_enc, slot.counter, true), padded(plain, 16))
    } else {
        plain
    }
}

/// An answer that a card can give: success or a warning, short enough.
pub open spec fn card_can_answer(slot: Scp03Model, plain: Seq<u8>, sw: Seq<u8>) -> bool {
    let body = card_body(slot, plain);
    &&& slot.authed
    &&& sw.len() == 2
    &&& is_protected(sw)
    &&& body.len() + 2 <= RAPDU_MAX
    &&& plain.len() + 2 <= RAPDU_MAX
}

/// Whatever a card can answer comes out again as it went in.
pub open spec fn recovers(slot: Scp03Model, rapdu: Seq<u8>, r: Result<Seq<u8>, BackendError>) -> bool {
    forall|plain: Seq<u8>, sw: Seq<u8>|
        card_can_answer(slot, plain, sw) && rapdu == #[trigger] card_response(slot, plain, sw)
            ==> r == Ok::<Seq<u8>, BackendError>(plain + sw)
}

// ---- Laws ------------------------------------------------------------------

/// A response that fails takes the session with it: nothing can be protected or
/// verified with it any more.
pub proof fn law_failed_response_closes_the_session(store: Store, s: Scp03Session, rapdu: Seq<u8>)
    requires
        s.0 < store.scp03.len(),
        response_unwrapped_by(store, s, rapdu).0 is Err,
    ensures
        ({
            let after = response_unwrapped_by(store, s, rapdu).1;
            &&& held(after.scp03, s.0) is None
            &&& forall|capdu: Seq<u8>| #[trigger] command_wrapped_by(after, s, capdu).0 is Err
            &&& forall|other: Seq<u8>| #[trigger] response_unwrapped_by(after, s, other).0 is Err
            &&& forall|i: u16|
                i != s.0 ==> #[trigger] held(after.scp03, i) == held(store.scp03, i)
        }),
{
}

/// The level is set once, by EXTERNAL AUTHENTICATE: it is that command's P1, and
/// no later command changes it.
pub proof fn law_level_is_latched(slot: Scp03Model, capdu: Seq<u8>)
    requires
        command_wrapped(slot, capdu) is Ok,
    ensures
        ({
            let after = command_wrapped(slot, capdu)->Ok_0.1;
            &&& after.authed
            &&& slot.authed ==> after.level == slot.level
            &&& !slot.authed ==> capdu[1] == 0x82 && after.level == capdu[2]
        }),
{
}

/// The part of a protected command that its MAC covers.
pub open spec fn signed_part(slot: Scp03Model, capdu: Seq<u8>) -> Seq<u8> {
    let data = command_data(capdu)->Ok_0;
    let counter = if slot.authed {
        (slot.counter + 1) as u32
    } else {
        slot.counter
    };
    let body = command_body(slot, counter, data);
    secure_header(capdu, (body.len() + slot.mode.width()) as int) + body
}

/// Every command MAC covers the one before it: the whole MAC of a command is the
/// chaining value of the next, its beginning is what is sent, and the keys stay.
pub proof fn law_command_macs_are_chained(slot: Scp03Model, capdu: Seq<u8>)
    requires
        command_wrapped(slot, capdu) is Ok,
    ensures
        ({
            let (out, after) = command_wrapped(slot, capdu)->Ok_0;
            let signed = signed_part(slot, capdu);
            &&& after.chain == cmac_tag(slot.s_mac, slot.chain + signed)
            &&& out == signed + after.chain.take(slot.mode.width() as int) + command_tail(capdu)
            &&& after.s_enc == slot.s_enc && after.s_mac == slot.s_mac && after.s_rmac
                == slot.s_rmac && after.mode == slot.mode
        }),
{
    let data = command_data(capdu)->Ok_0;
    let counter = if slot.authed {
        (slot.counter + 1) as u32
    } else {
        slot.counter
    };
    let body = command_body(slot, counter, data);
    let header = secure_header(capdu, (body.len() + slot.mode.width()) as int);
    assert(slot.chain + header + body =~= slot.chain + (header + body));
}

/// The counter behind the initial values goes up with every command, so that none is
/// used twice; where it cannot, no command is protected any more.
pub proof fn law_counter_never_repeats(slot: Scp03Model, capdu: Seq<u8>)
    requires
        slot.authed,
    ensures
        command_wrapped(slot, capdu) matches Ok((_, after)) ==> after.counter == slot.counter + 1,
        slot.counter == u32::MAX ==> command_wrapped(slot, capdu) is Err,
{
}

/// A slot that was given back can be taken again: after a session is closed the
/// next one finds room.
pub proof fn law_closed_slots_are_reused(store: Store, s: Scp03Session)
    requires
        s.0 < store.scp03.len(),
    ensures
        held(session_closed(store, s).scp03, s.0) is None,
        first_free(session_closed(store, s).scp03) is Some,
        first_free(session_closed(store, s).scp03)->Some_0 <= s.0,
{
    lemma_some_free(session_closed(store, s).scp03, s.0 as nat);
}

/// A table with a free slot has a first one, no later.
pub proof fn lemma_some_free<T>(slots: Seq<Option<T>>, n: nat)
    requires
        n < slots.len(),
        slots[n as int] is None,
    ensures
        first_free(slots) matches Some(k) && k <= n,
    decreases slots.len(),
{
    if slots[0] is Some {
        lemma_some_free(slots.skip(1), (n - 1) as nat);
    }
}

// ---- The operations --------------------------------------------------------

/// A derived key.
fn derive_secret(key: &[u8], constant: u8, context: &[u8]) -> (r: Result<Secret, BackendError>)
    requires
        is_aes_key(key@),
        context@.len() <= 48,
    ensures
        r matches Ok(s) && s@ == derived(
            key@,
            constant,
            (8 * key@.len()) as u16,
            context@,
            key@.len(),
        ) && s@.len() == key@.len(),
{
    let mut out: Vec<u8> = zeroed(key.len());
    let l_bits: u16 = key.len() as u16 * 8;
    kdf(key, constant, l_bits, context, out.as_mut_slice())?;
    let secret = Secret::from_slice(out.as_slice());
    wipe(out.as_mut_slice());
    match secret {
        Some(s) => Ok(s),
        None => vstd::pervasive::unreached(),
    }
}

/// A derived challenge or cryptogram.
fn derive_field(key: &[u8], constant: u8, mode: ScpMode, context: &[u8]) -> (r: Result<
    Field,
    BackendError,
>)
    requires
        is_aes_key(key@),
        context@.len() <= 48,
    ensures
        r matches Ok(f) && field_bytes(f) == derived(
            key@,
            constant,
            (8 * mode.width()) as u16,
            context@,
            mode.width(),
        ),
{
    let mut out: Vec<u8> = zeroed(mode.field_len());
    kdf(key, constant, mode.l_bits(), context, out.as_mut_slice())?;
    match field_from_slice(out.as_slice()) {
        Ok(f) => Ok(f),
        Err(_) => vstd::pervasive::unreached(),
    }
}

/// Two byte strings in one, if they are not longer than `max`.
fn joined(a: &[u8], b: &[u8], max: usize, message: &'static str) -> (r: Result<
    Vec<u8>,
    BackendError,
>)
    ensures
        match r {
            Ok(v) => a@.len() + b@.len() <= max && v@ == a@ + b@,
            Err(e) => a@.len() + b@.len() > max && e == BackendError::Crypto(
                Detail::Fixed(message),
            ),
        },
{
    if a.len() > max || b.len() > max - a.len() {
        return Err(BackendError::Crypto(Detail::Fixed(message)));
    }
    let mut v: Vec<u8> = Vec::new();
    v.extend_from_slice(a);
    v.extend_from_slice(b);
    assert(v@ =~= a@ + b@);
    Ok(v)
}

/// The block that is encrypted to an initial value.
fn counter_block(counter: u32, response: bool) -> (r: [u8; BLOCK])
    ensures
        r@ == counter_octets(counter, response),
{
    let mut blk: [u8; BLOCK] = [0u8; BLOCK];
    if response {
        blk[0] = 0x80;
    }
    blk[12] = (counter / 0x100_0000) as u8;
    blk[13] = (counter / 0x1_0000 % 0x100) as u8;
    blk[14] = (counter / 0x100 % 0x100) as u8;
    blk[15] = (counter % 0x100) as u8;
    assert(blk@ =~= counter_octets(counter, response));
    blk
}

/// The initial value of a command or a response.
fn ecb_icv(key: &[u8], counter: u32, response: bool) -> (r: [u8; BLOCK])
    requires
        is_aes_key(key@),
    ensures
        r@ == initial_value(key@, counter, response),
{
    let block: [u8; BLOCK] = counter_block(counter, response);
    let mut icv: [u8; BLOCK] = [0u8; BLOCK];
    match aes_ecb_block(key, &block, &mut icv) {
        Ok(()) => icv,
        Err(_) => vstd::pervasive::unreached(),
    }
}

/// The tag of three parts in one.
fn tag_of(key: &[u8], a: &[u8], b: &[u8], c: &[u8]) -> (r: [u8; BLOCK])
    requires
        is_aes_key(key@),
    ensures
        r@ == cmac_tag(key@, a@ + b@ + c@),
{
    let mut input: Vec<u8> = Vec::new();
    input.extend_from_slice(a);
    input.extend_from_slice(b);
    input.extend_from_slice(c);
    assert(input@ =~= a@ + b@ + c@);
    let mut tag: [u8; BLOCK] = [0u8; BLOCK];
    match aes_cmac(key, input.as_slice(), &mut tag) {
        Ok(()) => tag,
        Err(_) => vstd::pervasive::unreached(),
    }
}

/// Pads and encrypts `data`.
fn encrypt_padded(key: &[u8], icv: &[u8; BLOCK], data: &[u8]) -> (r: Vec<u8>)
    requires
        is_aes_key(key@),
        data@.len() <= 1024,
    ensures
        r@ == aes_cbc(key@, icv@, padded(data@, 16)),
        r@.len() == data@.len() - data@.len() % 16 + 16,
{
    proof {
        law_unpad_inverts_pad(data@, 16);
    }
    let mut scratch: Vec<u8> = vstd::slice::slice_to_vec(data);
    let room: Vec<u8> = zeroed(BLOCK);
    scratch.extend_from_slice(room.as_slice());
    assert(scratch@.take(data@.len() as int) =~= data@);
    let n: usize = match pad80(scratch.as_mut_slice(), data.len()) {
        Ok(n) => n,
        Err(_) => vstd::pervasive::unreached(),
    };
    assert(scratch@.take(n as int) =~= padded(data@, 16));
    match aes_cbc_encrypt(key, icv, scratch.as_mut_slice(), n) {
        Ok(_) => {},
        Err(_) => vstd::pervasive::unreached(),
    }
    scratch.truncate(n);
    assert(scratch@ =~= aes_cbc(key@, icv@, padded(data@, 16)));
    scratch
}

/// Whether a response with this status word is protected.
fn sw_is_protected(sw: &[u8]) -> (r: bool)
    requires
        sw@.len() == 2,
    ensures
        r == is_protected(sw@),
{
    (sw[0] == 0x90 && sw[1] == 0x00) || sw[0] == 0x62 || sw[0] == 0x63
}

impl Scp03SessionSlot {
    /// Protects a command.
    fn wrap(&mut self, capdu: &[u8]) -> (r: Result<Capdu, BackendError>)
        requires
            capdu@.len() >= 4,
        ensures
            match command_wrapped(old(self).model(), capdu@) {
                Ok((out, after)) => r matches Ok(c) && capdu_bytes(c) == out && final(self).model()
                    == after,
                Err(e) => r matches Err(x) && x == e && final(self).model() == old(self).model(),
            },
            scp03_sound(old(self).model()),
    {
        proof {
            use_type_invariant(&*self);
        }
        let ghost m = self.model();
        let mac_len: usize = self.mode.mac_len();
        let lc: usize = if capdu.len() > 4 {
            capdu[4] as usize
        } else {
            0
        };
        if capdu.len() > 4 && capdu.len() < 5 + lc {
            return Err(BackendError::Crypto(Detail::Fixed("C-APDU Lc exceeds buffer")));
        }
        let none: &[u8] = &[];
        let data: &[u8] = if capdu.len() > 4 {
            &capdu[5..5 + lc]
        } else {
            none
        };
        let le: &[u8] = if capdu.len() > 4 {
            &capdu[5 + lc..capdu.len()]
        } else {
            none
        };
        proof {
            assert(data@ =~= command_data(capdu@)->Ok_0);
            assert(le@ =~= command_tail(capdu@));
        }
        let mut counter: u32 = self.counter;
        let mut level: u8 = self.level;
        let mut body: Vec<u8> = Vec::new();
        if self.authed {
            if counter == u32::MAX {
                return Err(BackendError::Crypto(Detail::Fixed("command counter overflow")));
            }
            counter = counter + 1;
            if level & SL_CENC != 0 && data.len() > 0 {
                let key: &[u8] = self.s_enc.as_slice();
                let icv: [u8; BLOCK] = ecb_icv(key, counter, false);
                body = encrypt_padded(key, &icv, data);
            } else {
                body.extend_from_slice(data);
            }
        } else {
            if capdu[1] != EXTERNAL_AUTHENTICATE {
                return Err(
                    BackendError::Crypto(Detail::Fixed("first wrap must be EXTERNAL AUTHENTICATE")),
                );
            }
            level = capdu[2];
            body.extend_from_slice(data);
        }
        assert(body@ =~= command_body(m, counter, data@));
        let len: usize = body.len() + mac_len;
        if len > 255 {
            return Err(BackendError::Crypto(Detail::Fixed("wrapped Lc exceeds short APDU")));
        }
        let header: [u8; 5] = [capdu[0] | 0x04, capdu[1], capdu[2], capdu[3], len as u8];
        assert(header@ =~= secure_header(capdu@, len as int));
        let full: [u8; BLOCK] = tag_of(
            self.s_mac.as_slice(),
            &self.chain,
            &header,
            body.as_slice(),
        );
        let tag: &[u8] = &full;
        let mac: &[u8] = &tag[0..mac_len];
        assert(mac@ =~= full@.take(mac_len as int));
        let mut out: Capdu = capdu_new();
        if capdu_extend(&mut out, &header).is_err() || capdu_extend(
            &mut out,
            body.as_slice(),
        ).is_err() || capdu_extend(&mut out, mac).is_err() || capdu_extend(&mut out, le).is_err() {
            return Err(BackendError::Crypto(Detail::Fixed("buffer overflow")));
        }
        assert(capdu_bytes(out) =~= header@ + body@ + mac@ + le@);
        self.chain = full;
        self.counter = counter;
        self.level = level;
        self.authed = true;
        Ok(out)
    }

    /// The data of a response once its MAC is verified and taken off.
    fn verify(&self, rapdu: &[u8]) -> (r: Result<Vec<u8>, BackendError>)
        requires
            rapdu@.len() >= 2,
        ensures
            match r {
                Ok(v) => verified_data(self.model(), rapdu@) == Ok::<Seq<u8>, BackendError>(v@),
                Err(e) => verified_data(self.model(), rapdu@) == Err::<Seq<u8>, BackendError>(e),
            },
    {
        proof {
            use_type_invariant(self);
        }
        let mac_len: usize = self.mode.mac_len();
        let split: usize = rapdu.len() - 2;
        let body: &[u8] = &rapdu[0..split];
        let sw: &[u8] = &rapdu[split..rapdu.len()];
        proof {
            assert(body@ =~= rapdu@.take(split as int));
            assert(sw@ =~= rapdu@.skip(split as int));
        }
        if self.level & SL_RMAC != 0 && sw_is_protected(sw) {
            if body.len() < mac_len {
                return Err(BackendError::Crypto(Detail::Fixed("R-APDU too short for R-MAC")));
            }
            let n: usize = body.len() - mac_len;
            let data: &[u8] = &body[0..n];
            let rmac: &[u8] = &body[n..body.len()];
            proof {
                assert(data@ =~= body@.take(n as int));
                assert(rmac@ =~= body@.skip(n as int));
            }
            if n > RAPDU_MAX - 2 {
                return Err(BackendError::Crypto(Detail::Fixed("buffer overflow")));
            }
            let full: [u8; BLOCK] = tag_of(self.s_rmac.as_slice(), &self.chain, data, sw);
            let tag: &[u8] = &full;
            let expected: &[u8] = &tag[0..mac_len];
            assert(expected@ =~= full@.take(mac_len as int));
            if !ct_equal(expected, rmac) {
                return Err(BackendError::Crypto(Detail::Fixed("R-MAC verification failed")));
            }
            Ok(vstd::slice::slice_to_vec(data))
        } else {
            Ok(vstd::slice::slice_to_vec(body))
        }
    }

    /// The data of a response in clear.
    fn decrypt(&self, data: &Vec<u8>, sw: &[u8]) -> (r: Result<Vec<u8>, BackendError>)
        requires
            sw@.len() == 2,
        ensures
            match r {
                Ok(v) => plain_data(self.model(), data@, sw@) == Ok::<Seq<u8>, BackendError>(v@),
                Err(e) => plain_data(self.model(), data@, sw@) == Err::<Seq<u8>, BackendError>(e),
            },
            forall|plain: Seq<u8>|
                data@ == #[trigger] card_body(self.model(), plain) && is_protected(sw@)
                    && data@.len() <= RAPDU_MAX ==> (r matches Ok(v) && v@ == plain),
    {
        proof {
            use_type_invariant(self);
        }
        if self.level & SL_RENC != 0 && sw_is_protected(sw) && data.len() > 0 {
            if data.len() % BLOCK != 0 {
                proof {
                    assert forall|plain: Seq<u8>|
                        data@ == #[trigger] card_body(self.model(), plain) implies false by {
                        if plain.len() > 0 {
                            law_unpad_inverts_pad(plain, 16);
                        }
                    }
                }
                return Err(BackendError::Crypto(Detail::Fixed("R-ENC data not block-aligned")));
            }
            if data.len() > RAPDU_MAX {
                return Err(BackendError::Crypto(Detail::Fixed("response data too large")));
            }
            let key: &[u8] = self.s_enc.as_slice();
            let icv: [u8; BLOCK] = ecb_icv(key, self.counter, true);
            let mut scratch: Vec<u8> = vstd::slice::slice_to_vec(data.as_slice());
            match aes_cbc_decrypt(key, &icv, scratch.as_mut_slice()) {
                Ok(_) => {},
                Err(_) => vstd::pervasive::unreached(),
            }
            let ghost plain_all = scratch@;
            proof {
                assert forall|plain: Seq<u8>|
                    data@ == #[trigger] card_body(self.model(), plain) implies plain_all
                    == padded(plain, 16) && padding_start(plain_all) == Some(plain.len())
                    && plain_all.take(plain.len() as int) == plain by {
                    law_unpad_inverts_pad(plain, 16);
                    assert(data@ == aes_cbc(key@, icv@, padded(plain, 16)));
                }
            }
            let n: usize = unpad80(scratch.as_slice())?;
            proof {
                lemma_padding_inside(plain_all);
            }
            scratch.truncate(n);
            assert(scratch@ =~= plain_all.take(n as int));
            Ok(scratch)
        } else {
            let same: Vec<u8> = vstd::slice::slice_to_vec(data.as_slice());
            proof {
                assert forall|plain: Seq<u8>|
                    data@ == #[trigger] card_body(self.model(), plain) && is_protected(
                        sw@,
                    ) implies same@ == plain by {
                    if self.model().level & 0x20 != 0 && plain.len() > 0 {
                        law_unpad_inverts_pad(plain, 16);
                    }
                }
            }
            Ok(same)
        }
    }

    /// What a response says.
    fn unwrap_inner(&self, rapdu: &[u8]) -> (r: Result<Rapdu, BackendError>)
        ensures
            rapdu_result(r) == response_unwrapped(self.model(), rapdu@),
            recovers(self.model(), rapdu@, rapdu_result(r)),
    {
        if !self.authed {
            return Err(BackendError::Crypto(Detail::Fixed("unwrap before authentication")));
        }
        if rapdu.len() < 2 {
            return Err(BackendError::Crypto(Detail::Fixed("R-APDU shorter than SW")));
        }
        let ghost m = self.model();
        let sw: &[u8] = &rapdu[rapdu.len() - 2..rapdu.len()];
        assert(sw@ =~= rapdu@.skip(rapdu@.len() - 2));
        proof {
            assert forall|plain: Seq<u8>, sw0: Seq<u8>|
                card_can_answer(m, plain, sw0) && rapdu@ == #[trigger] card_response(
                    m,
                    plain,
                    sw0,
                ) implies sw0 == sw@ && verified_data(m, rapdu@) == Ok::<Seq<u8>, BackendError>(
                card_body(m, plain),
            ) by {
                let body = card_body(m, plain);
                assert(sw0 =~= sw@);
                let field = rapdu@.take(rapdu@.len() - 2);
                let mac = cmac_tag(m.s_rmac, m.chain + body + sw0).take(m.mode.width() as int);
                if m.level & 0x10 != 0 {
                    assert(field =~= body + mac);
                    assert(field.take(field.len() - m.mode.width()) =~= body);
                    assert(field.skip(field.len() - m.mode.width()) =~= mac);
                } else {
                    assert(field =~= body);
                }
            }
        }
        let data: Vec<u8> = self.verify(rapdu)?;
        let plain: Vec<u8> = self.decrypt(&data, sw)?;
        if plain.len() > RAPDU_MAX - 2 {
            return Err(BackendError::Crypto(Detail::Fixed("buffer overflow")));
        }
        let mut out: Vec<u8> = plain;
        let ghost clear = out@;
        out.extend_from_slice(sw);
        assert(out@ =~= clear + sw@);
        match rapdu_from_slice(out.as_slice()) {
            Ok(v) => Ok(v),
            Err(_) => vstd::pervasive::unreached(),
        }
    }

    /// Wipes the keys of a session that is given up.
    pub(crate) fn into_wiped(self) -> (r: (Secret, Secret, Secret))
        ensures
            r.0.wiped() && r.1.wiped() && r.2.wiped(),
    {
        let Scp03SessionSlot { mut s_enc, mut s_mac, mut s_rmac, .. } = self;
        s_enc.wipe();
        s_mac.wipe();
        s_rmac.wipe();
        (s_enc, s_mac, s_rmac)
    }
}

impl<R> RustCryptoBackend<R> {
    /// An AES key by its handle.
    fn aes_key(&self, h: KeyHandle) -> (r: Result<&[u8], BackendError>)
        ensures
            match aes_key_of(self.store(), h) {
                Ok(key) => r matches Ok(k) && k@ == key && is_aes_key(k@),
                Err(e) => r matches Err(x) && x == e,
            },
    {
        let slot: &KeySlot = match self.key_slot(h) {
            Some(s) => s,
            None => return Err(BackendError::Crypto(Detail::Fixed("key handle invalid"))),
        };
        match slot.kind {
            KeyKind::TripleDesDouble => Err(
                BackendError::Crypto(Detail::Fixed("SCP03 needs an AES key")),
            ),
            _ => Ok(slot.key.as_slice()),
        }
    }

    /// A key that takes part in a key payload, by its handle.
    fn payload_key(&self, h: KeyHandle) -> (r: Result<&[u8], BackendError>)
        ensures
            match payload_key_of(self.store(), h) {
                Ok(key) => r matches Ok(k) && k@ == key && is_aes_key(k@),
                Err(e) => r matches Err(x) && x == e,
            },
    {
        let slot: &KeySlot = match self.key_slot(h) {
            Some(s) => s,
            None => return Err(BackendError::Crypto(Detail::Fixed("key handle invalid"))),
        };
        match slot.kind {
            KeyKind::TripleDesDouble => Err(
                BackendError::Unsupported(Detail::Fixed("SCP03 needs an AES key")),
            ),
            _ => Ok(slot.key.as_slice()),
        }
    }

    /// A session by its handle.
    fn session03(&self, s: Scp03Session) -> (r: Result<&Scp03SessionSlot, BackendError>)
        ensures
            match held(self.store().scp03, s.0) {
                Some(m) => r matches Ok(slot) && slot.model() == m,
                None => r matches Err(e) && e == BackendError::Crypto(
                    Detail::Fixed("session handle invalid"),
                ),
            },
    {
        let i: usize = s.index() as usize;
        if i >= MAX_SESSION_SLOTS {
            return Err(BackendError::Crypto(Detail::Fixed("session handle invalid")));
        }
        match &self.sessions[i] {
            Some(slot) => Ok(slot),
            None => Err(BackendError::Crypto(Detail::Fixed("session handle invalid"))),
        }
    }

    /// Keeps a session in the first free slot.
    fn store_session03(&mut self, slot: Scp03SessionSlot) -> (r: Result<Scp03Session, BackendError>)
        ensures
            match first_free(old(self).store().scp03) {
                Some(n) => {
                    &&& r == Ok::<Scp03Session, BackendError>(Scp03Session(n as u16))
                    &&& final(self).store() == (Store {
                        scp03: old(self).store().scp03.update(n as int, Some(slot.model())),
                        ..old(self).store()
                    })
                },
                None => {
                    &&& r == Err::<Scp03Session, BackendError>(
                        BackendError::KeyGen(Detail::Fixed("session table full")),
                    )
                    &&& final(self).store() == old(self).store()
                },
            },
            final(self).log == old(self).log,
            final(self).rng == old(self).rng,
    {
        let mut i: usize = 0;
        while i < MAX_SESSION_SLOTS
            invariant
                i <= MAX_SESSION_SLOTS,
                *self == *old(self),
                forall|j: int| 0 <= j < i ==> #[trigger] self.store().scp03[j] is Some,
            decreases MAX_SESSION_SLOTS - i,
        {
            if self.sessions[i].is_none() {
                proof {
                    lemma_first_free(self.store().scp03, i as nat);
                }
                let ghost m = slot.model();
                self.sessions[i] = Some(slot);
                proof {
                    assert(self.store().scp03 =~= old(self).store().scp03.update(
                        i as int,
                        Some(m),
                    ));
                }
                return Ok(Scp03Session::new(i as u16));
            }
            i = i + 1;
        }
        proof {
            lemma_first_free(self.store().scp03, MAX_SESSION_SLOTS as nat);
        }
        let _wiped = slot.into_wiped();
        Err(BackendError::KeyGen(Detail::Fixed("session table full")))
    }

    /// Derives a session.
    fn derive03(
        &mut self,
        enc: KeyHandle,
        mac: KeyHandle,
        mode: ScpMode,
        host: &[u8],
        card: &[u8],
    ) -> (r: Result<Scp03Session, BackendError>)
        ensures
            (r, final(self).store()) == session_derived(
                old(self).store(),
                enc,
                mac,
                mode,
                host@,
                card@,
            ),
            final(self).log == old(self).log,
            final(self).rng == old(self).rng,
    {
        if host.len() != mode.field_len() || card.len() != mode.field_len() {
            return Err(BackendError::Crypto(Detail::Fixed("challenge length does not match mode")));
        }
        let context: Vec<u8> = joined(host, card, CONTEXT_MAX, "context overflow")?;
        let slot: Scp03SessionSlot = {
            let k_enc: &[u8] = self.aes_key(enc)?;
            let k_mac: &[u8] = self.aes_key(mac)?;
            if k_enc.len() != k_mac.len() {
                return Err(BackendError::Crypto(Detail::Fixed("ENC/MAC key lengths differ")));
            }
            let slot: Scp03SessionSlot = Scp03SessionSlot {
                s_enc: derive_secret(k_enc, DC_S_ENC, context.as_slice())?,
                s_mac: derive_secret(k_mac, DC_S_MAC, context.as_slice())?,
                s_rmac: derive_secret(k_mac, DC_S_RMAC, context.as_slice())?,
                mode,
                chain: [0u8; 16],
                counter: 0,
                level: 0,
                authed: false,
            };
            assert(slot.chain@ =~= zeros(16));
            assert(slot.model() == fresh_session(k_enc@, k_mac@, mode, host@ + card@));
            slot
        };
        self.store_session03(slot)
    }

    /// A cryptogram.
    fn cryptogram(&self, s: Scp03Session, host: &[u8], card: &[u8], constant: u8) -> (r: Result<
        Field,
        BackendError,
    >)
        ensures
            field_result(r) == cryptogram_of(self.store(), s, host@, card@, constant),
    {
        let context: Vec<u8> = joined(host, card, CONTEXT_MAX, "context overflow")?;
        let slot: &Scp03SessionSlot = self.session03(s)?;
        proof {
            use_type_invariant(slot);
        }
        derive_field(slot.s_mac.as_slice(), constant, slot.mode, context.as_slice())
    }

    /// The card challenge that follows from a sequence counter.
    fn card_challenge(&self, enc: KeyHandle, mode: ScpMode, counter: &[u8; 3], aid: &[u8]) -> (r:
        Result<Field, BackendError>)
        ensures
            field_result(r) == card_challenge_of(self.store(), enc, mode, counter@, aid@),
    {
        let context: Vec<u8> = joined(
            counter,
            aid,
            CHALLENGE_CONTEXT_MAX,
            "challenge context overflow",
        )?;
        let key: &[u8] = self.aes_key(enc)?;
        derive_field(key, DC_CARD_CHALLENGE, mode, context.as_slice())
    }

    /// A new key under the key encryption key.
    fn key_payload(&self, dek: KeyHandle, new_key: KeyHandle) -> (r: Result<
        EncKeyBlock,
        BackendError,
    >)
        ensures
            block_result(r) == key_payload_of(self.store(), dek, new_key),
    {
        let k_dek: &[u8] = self.payload_key(dek)?;
        let key: &[u8] = self.payload_key(new_key)?;
        let iv: [u8; BLOCK] = [0u8; BLOCK];
        assert(iv@ =~= zeros(16));
        let mut out: Vec<u8>;
        if key.len() % BLOCK == 0 {
            out = vstd::slice::slice_to_vec(key);
            assert(out@.take(key@.len() as int) =~= key@);
            match aes_cbc_encrypt(k_dek, &iv, out.as_mut_slice(), key.len()) {
                Ok(_) => {},
                Err(_) => vstd::pervasive::unreached(),
            }
            assert(out@ =~= aes_cbc(k_dek@, zeros(16), key@));
        } else {
            out = encrypt_padded(k_dek, &iv, key);
        }
        match block_from_slice(out.as_slice()) {
            Ok(v) => Ok(v),
            Err(_) => vstd::pervasive::unreached(),
        }
    }

    /// Protects a command.
    fn wrap03(&mut self, s: Scp03Session, capdu: &[u8]) -> (r: Result<Capdu, BackendError>)
        ensures
            (capdu_result(r), final(self).store()) == command_wrapped_by(
                old(self).store(),
                s,
                capdu@,
            ),
            r is Ok ==> (held(old(self).store().scp03, s.0) matches Some(slot) && scp03_sound(
                slot,
            )),
            final(self).log == old(self).log,
            final(self).rng == old(self).rng,
    {
        if capdu.len() < 4 {
            return Err(BackendError::Crypto(Detail::Fixed("C-APDU shorter than header")));
        }
        let i: usize = s.index() as usize;
        if i >= MAX_SESSION_SLOTS {
            return Err(BackendError::Crypto(Detail::Fixed("session handle invalid")));
        }
        let ghost before = self.store();
        let r: Result<Capdu, BackendError> = match &mut self.sessions[i] {
            Some(slot) => slot.wrap(capdu),
            None => Err(BackendError::Crypto(Detail::Fixed("session handle invalid"))),
        };
        proof {
            let after = command_wrapped_by(before, s, capdu@).1;
            assert(self.store().scp03 =~= after.scp03);
        }
        r
    }

    /// Gives a session up.
    fn close03(&mut self, s: Scp03Session)
        ensures
            final(self).store() == session_closed(old(self).store(), s),
            final(self).log == old(self).log,
            final(self).rng == old(self).rng,
    {
        let i: usize = s.index() as usize;
        if i < MAX_SESSION_SLOTS {
            let gone: Option<Scp03SessionSlot> = self.sessions[i].take();
            if let Some(slot) = gone {
                let _wiped = slot.into_wiped();
            }
            assert(self.store().scp03 =~= session_closed(old(self).store(), s).scp03);
        }
    }

    /// Verifies a response.
    fn unwrap03(&mut self, s: Scp03Session, rapdu: &[u8]) -> (r: Result<Rapdu, BackendError>)
        ensures
            (rapdu_result(r), final(self).store()) == response_unwrapped_by(
                old(self).store(),
                s,
                rapdu@,
            ),
            held(old(self).store().scp03, s.0) matches Some(slot) ==> recovers(
                slot,
                rapdu@,
                rapdu_result(r),
            ),
            final(self).log == old(self).log,
            final(self).rng == old(self).rng,
    {
        let r: Result<Rapdu, BackendError> = {
            let slot: &Scp03SessionSlot = self.session03(s)?;
            slot.unwrap_inner(rapdu)
        };
        if r.is_err() {
            self.close03(s);
        }
        r
    }
}

impl<R: RandomSource> Scp03Backend for RustCryptoBackend<R> {
    fn scp03_derive_session(
        &mut self,
        static_enc: &KeyHandle,
        static_mac: &KeyHandle,
        mode: ScpMode,
        host_challenge: &[u8],
        card_challenge: &[u8],
    ) -> (r: Result<Scp03Session, BackendError>)
        ensures
            (r, final(self).store()) == session_derived(
                old(self).store(),
                *static_enc,
                *static_mac,
                mode,
                host_challenge@,
                card_challenge@,
            ),
            final(self).draws() == old(self).draws(),
    {
        let r: Result<Scp03Session, BackendError> = self.derive03(
            *static_enc,
            *static_mac,
            mode,
            host_challenge,
            card_challenge,
        );
        self.log = Ghost(
            self.log@.push(
                Event::Derive03 {
                    enc: *static_enc,
                    mac: *static_mac,
                    mode,
                    host: host_challenge@,
                    card: card_challenge@,
                    result: r,
                },
            ),
        );
        r
    }

    fn scp03_card_cryptogram(&mut self, s: &Scp03Session, host_ch: &[u8], card_ch: &[u8]) -> (r:
        Result<Field, BackendError>)
        ensures
            field_result(r) == cryptogram_of(old(self).store(), *s, host_ch@, card_ch@, 0x00),
            final(self).store() == old(self).store(),
            final(self).draws() == old(self).draws(),
    {
        let r: Result<Field, BackendError> = self.cryptogram(*s, host_ch, card_ch, DC_CARD_CRYPTO);
        self.log = Ghost(
            self.log@.push(
                Event::CardCryptogram03 {
                    session: *s,
                    host: host_ch@,
                    card: card_ch@,
                    result: field_result(r),
                },
            ),
        );
        r
    }

    fn scp03_host_cryptogram(&mut self, s: &Scp03Session, host_ch: &[u8], card_ch: &[u8]) -> (r:
        Result<Field, BackendError>)
        ensures
            field_result(r) == cryptogram_of(old(self).store(), *s, host_ch@, card_ch@, 0x01),
            final(self).store() == old(self).store(),
            final(self).draws() == old(self).draws(),
    {
        let r: Result<Field, BackendError> = self.cryptogram(*s, host_ch, card_ch, DC_HOST_CRYPTO);
        self.log = Ghost(
            self.log@.push(
                Event::HostCryptogram03 {
                    session: *s,
                    host: host_ch@,
                    card: card_ch@,
                    result: field_result(r),
                },
            ),
        );
        r
    }

    fn scp03_pseudo_card_challenge(
        &mut self,
        static_enc: &KeyHandle,
        mode: ScpMode,
        seq_counter: &[u8; 3],
        invoker_aid: &[u8],
    ) -> (r: Result<Field, BackendError>)
        ensures
            field_result(r) == card_challenge_of(
                old(self).store(),
                *static_enc,
                mode,
                seq_counter@,
                invoker_aid@,
            ),
            final(self).store() == old(self).store(),
            final(self).draws() == old(self).draws(),
    {
        let r: Result<Field, BackendError> = self.card_challenge(
            *static_enc,
            mode,
            seq_counter,
            invoker_aid,
        );
        self.log = Ghost(
            self.log@.push(
                Event::CardChallenge03 {
                    enc: *static_enc,
                    mode,
                    counter: seq_counter@,
                    aid: invoker_aid@,
                    result: field_result(r),
                },
            ),
        );
        r
    }

    fn scp03_wrap_command(&mut self, s: &mut Scp03Session, capdu: &[u8]) -> (r: Result<
        Capdu,
        BackendError,
    >)
        ensures
            (capdu_result(r), final(self).store()) == command_wrapped_by(
                old(self).store(),
                *old(s),
                capdu@,
            ),
            r is Ok ==> (held(old(self).store().scp03, old(s).0) matches Some(slot) && scp03_sound(
                slot,
            )),
            *final(s) == *old(s),
            final(self).draws() == old(self).draws(),
    {
        let r: Result<Capdu, BackendError> = self.wrap03(*s, capdu);
        self.log = Ghost(
            self.log@.push(
                Event::Wrap03 {
                    session: *s,
                    after: *s,
                    command: capdu@,
                    result: capdu_result(r),
                },
            ),
        );
        r
    }

    fn scp03_unwrap_response(&mut self, s: &mut Scp03Session, rapdu: &[u8]) -> (r: Result<
        Rapdu,
        BackendError,
    >)
        ensures
            (rapdu_result(r), final(self).store()) == response_unwrapped_by(
                old(self).store(),
                *old(s),
                rapdu@,
            ),
            held(old(self).store().scp03, old(s).0) matches Some(slot) ==> recovers(
                slot,
                rapdu@,
                rapdu_result(r),
            ),
            *final(s) == *old(s),
            final(self).draws() == old(self).draws(),
    {
        let r: Result<Rapdu, BackendError> = self.unwrap03(*s, rapdu);
        self.log = Ghost(
            self.log@.push(
                Event::Unwrap03 {
                    session: *s,
                    after: *s,
                    response: rapdu@,
                    result: rapdu_result(r),
                },
            ),
        );
        r
    }

    fn scp03_encrypt_put_key_payload(&mut self, dek: &KeyHandle, new_key: &KeyHandle) -> (r: Result<
        EncKeyBlock,
        BackendError,
    >)
        ensures
            block_result(r) == key_payload_of(old(self).store(), *dek, *new_key),
            final(self).store() == old(self).store(),
            final(self).draws() == old(self).draws(),
    {
        let r: Result<EncKeyBlock, BackendError> = self.key_payload(*dek, *new_key);
        self.log = Ghost(
            self.log@.push(
                Event::EncryptKey03 { dek: *dek, key: *new_key, result: block_result(r) },
            ),
        );
        r
    }

    fn scp03_close_session(&mut self, s: Scp03Session)
        ensures
            final(self).store() == session_closed(old(self).store(), s),
            final(self).draws() == old(self).draws(),
    {
        self.close03(s);
        self.log = Ghost(self.log@.push(Event::Close03 { session: s }));
    }
}

/// Padding starts inside.
proof fn lemma_padding_inside(s: Seq<u8>)
    ensures
        padding_start(s) matches Some(n) ==> n < s.len(),
    decreases s.len(),
{
    if s.len() > 0 {
        lemma_padding_inside(s.drop_last());
    }
}

} // verus!
