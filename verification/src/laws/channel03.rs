//! SCP03 in the software backend: session keys, cryptograms, commands and responses.
use vstd::prelude::*;

use crate::backend::{KeyHandle, Scp03Session, ScpMode};
use crate::error::BackendError;
use crate::laws::ciphers::{law_one_way_to_pad, law_padding_octets};
use crate::laws::octets::{
    all_zero, lemma_number_4, lemma_number_injective, lemma_number_zeros, number,
};
use crate::limits::{CAPDU_MAX, RAPDU_MAX};
use crate::rustcrypto::{first_free, held, Scp03Model, Store};
use crate::rustcrypto::crypto::{
    aes_cbc, aes_uncbc, cmac_tag, derived, padded, padding_start, zeros,
};
use crate::rustcrypto::key::lemma_free_is_inside;
use crate::rustcrypto::scp03::{
    card_challenge_of, command_data, command_tail, command_wrapped, command_wrapped_by,
    counter_octets, cryptogram_of, is_protected, key_payload_of, response_unwrapped,
    response_unwrapped_by, session_closed, session_derived,
};

verus! {

/// The octets of a challenge, a cryptogram or a MAC.
pub open spec fn mode_octets(mode: ScpMode) -> nat {
    match mode {
        ScpMode::S8 => 8,
        ScpMode::S16 => 16,
    }
}

/// The keys of a new session: S-ENC comes from the encryption key with the constant 4,
/// S-MAC and S-RMAC from the MAC key with 6 and 7, each as long as its base key and over
/// the host's challenge and the card's behind it. Nothing is chained, counted or
/// authenticated yet. Every other session, and every key, stays.
pub proof fn law_session_keys(
    store: Store,
    enc: KeyHandle,
    mac: KeyHandle,
    mode: ScpMode,
    host: Seq<u8>,
    card: Seq<u8>,
)
    requires
        session_derived(store, enc, mac, mode, host, card).0 is Ok,
        store.scp03.len() <= u16::MAX,
    ensures
        held(store.keys, enc.0) is Some,
        held(store.keys, mac.0) is Some,
        ({
            let (r, after) = session_derived(store, enc, mac, mode, host, card);
            let k_enc = held(store.keys, enc.0)->Some_0.bytes;
            let k_mac = held(store.keys, mac.0)->Some_0.bytes;
            let bits = (8 * k_enc.len()) as u16;
            &&& host.len() == mode_octets(mode) && card.len() == mode_octets(mode)
            &&& k_enc.len() == k_mac.len()
            &&& held(store.scp03, r->Ok_0.0) is None
            &&& held(after.scp03, r->Ok_0.0) matches Some(slot) && {
                &&& slot.s_enc == derived(k_enc, 0x04, bits, host + card, k_enc.len())
                &&& slot.s_mac == derived(k_mac, 0x06, bits, host + card, k_mac.len())
                &&& slot.s_rmac == derived(k_mac, 0x07, bits, host + card, k_mac.len())
                &&& slot.mode == mode
                &&& slot.chain.len() == 16 && all_zero(slot.chain)
                &&& slot.counter == 0
                &&& !slot.authed
            }
            &&& forall|i: u16|
                i != r->Ok_0.0 ==> #[trigger] held(after.scp03, i) == held(store.scp03, i)
            &&& after.keys == store.keys
            &&& after.scp02 == store.scp02
        }),
{
    lemma_free_is_inside(store.scp03);
}

/// When a session can be derived: both keys are there, are AES keys and equally long,
/// both challenges have the length of the mode, and a slot is free.
pub proof fn law_session_is_derived(
    store: Store,
    enc: KeyHandle,
    mac: KeyHandle,
    mode: ScpMode,
    host: Seq<u8>,
    card: Seq<u8>,
)
    ensures
        session_derived(store, enc, mac, mode, host, card).0 is Ok <==> {
            &&& host.len() == mode_octets(mode)
            &&& card.len() == mode_octets(mode)
            &&& held(store.keys, enc.0) matches Some(k) && !(k.kind is TripleDesDouble)
            &&& held(store.keys, mac.0) matches Some(k) && !(k.kind is TripleDesDouble)
            &&& held(store.keys, enc.0)->Some_0.bytes.len() == held(
                store.keys,
                mac.0,
            )->Some_0.bytes.len()
            &&& first_free(store.scp03) is Some
        },
        session_derived(store, enc, mac, mode, host, card).0 is Err ==> session_derived(
            store,
            enc,
            mac,
            mode,
            host,
            card,
        ).1 == store,
{
}

/// A cryptogram is derived from S-MAC over the host's challenge and the card's behind it,
/// with its length in bits, 64 or 128.
pub proof fn law_cryptograms(
    store: Store,
    s: Scp03Session,
    host: Seq<u8>,
    card: Seq<u8>,
    constant: u8,
)
    requires
        held(store.scp03, s.0) is Some,
        host.len() <= 16,
        card.len() <= 16,
    ensures
        ({
            let slot = held(store.scp03, s.0)->Some_0;
            let r = cryptogram_of(store, s, host, card, constant);
            &&& slot.mode is S8 ==> r == Ok::<Seq<u8>, BackendError>(
                derived(slot.s_mac, constant, 64, host + card, 8),
            )
            &&& slot.mode is S16 ==> r == Ok::<Seq<u8>, BackendError>(
                derived(slot.s_mac, constant, 128, host + card, 16),
            )
        }),
{
}

/// A pseudo-random card challenge is derived from the encryption key with the constant 2
/// over the sequence counter and the identifier behind it.
pub proof fn law_card_challenge(
    store: Store,
    enc: KeyHandle,
    mode: ScpMode,
    counter: Seq<u8>,
    aid: Seq<u8>,
)
    requires
        aid.len() <= 16,
        held(store.keys, enc.0) matches Some(k) && !(k.kind is TripleDesDouble),
    ensures
        ({
            let key = held(store.keys, enc.0)->Some_0.bytes;
            let r = card_challenge_of(store, enc, mode, counter, aid);
            &&& mode is S8 ==> r == Ok::<Seq<u8>, BackendError>(
                derived(key, 0x02, 64, counter + aid, 8),
            )
            &&& mode is S16 ==> r == Ok::<Seq<u8>, BackendError>(
                derived(key, 0x02, 128, counter + aid, 16),
            )
        }),
{
}

/// A new key is encrypted in CBC mode from sixteen zeros: a key of whole blocks as it is,
/// and one of 24 octets with `80` and seven zeros behind it.
pub proof fn law_key_payload(
    store: Store,
    dek: KeyHandle,
    new_key: KeyHandle,
    iv: Seq<u8>,
    filled: Seq<u8>,
)
    requires
        held(store.keys, dek.0) matches Some(k) && !(k.kind is TripleDesDouble),
        held(store.keys, new_key.0) matches Some(k) && !(k.kind is TripleDesDouble),
        iv.len() == 16,
        all_zero(iv),
        ({
            let key = held(store.keys, new_key.0)->Some_0.bytes;
            &&& key.len() == 16 || key.len() == 32 ==> filled == key
            &&& key.len() == 24 ==> {
                &&& filled.len() == 32
                &&& filled.take(24) == key
                &&& filled[24] == 0x80
                &&& all_zero(filled.skip(25))
            }
            &&& key.len() == 16 || key.len() == 24 || key.len() == 32
        }),
    ensures
        key_payload_of(store, dek, new_key) == Ok::<Seq<u8>, BackendError>(
            aes_cbc(held(store.keys, dek.0)->Some_0.bytes, iv, filled),
        ),
{
    let key = held(store.keys, new_key.0)->Some_0.bytes;
    assert(iv =~= zeros(16));
    if key.len() == 24 {
        law_one_way_to_pad(key, filled);
    }
}

/// The block behind an initial value: `80` for a response and zero for a command in
/// front, and the rest of it, read as a number, is the command counter.
pub proof fn law_counter_block(counter: u32, response: bool)
    ensures
        counter_octets(counter, response).len() == 16,
        counter_octets(counter, response)[0] == (if response {
            0x80
        } else {
            0x00int
        }),
        number(counter_octets(counter, response).skip(1)) == counter,
{
    let block = counter_octets(counter, response);
    let low = block.skip(12);
    lemma_number_4(low);
    assert(block.skip(1) =~= zeros(11) + low);
    lemma_number_zeros(zeros(11), low);
    let c = counter as int;
    assert(c / 0x100_0000 * 0x100_0000 + (c / 0x1_0000 % 0x100) * 0x1_0000 + (c / 0x100 % 0x100)
        * 0x100 + c % 0x100 == c);
}

/// Blocks of different counters are different, and so are that of a command and that of
/// a response.
pub proof fn law_counter_blocks_differ(a: u32, b: u32, response: bool, response2: bool)
    requires
        counter_octets(a, response) == counter_octets(b, response2),
    ensures
        a == b,
        response == response2,
{
    law_counter_block(a, response);
    law_counter_block(b, response2);
}

/// There is one such block.
proof fn lemma_counter_block(block: Seq<u8>, counter: u32, response: bool)
    requires
        block.len() == 16,
        block[0] == (if response {
            0x80
        } else {
            0x00int
        }),
        number(block.skip(1)) == counter,
    ensures
        block == counter_octets(counter, response),
{
    law_counter_block(counter, response);
    let made = counter_octets(counter, response);
    lemma_number_injective(block.skip(1), made.skip(1));
    assert(block =~= seq![block[0]] + block.skip(1));
    assert(made =~= seq![made[0]] + made.skip(1));
}

/// The data of a command and what follows them.
pub proof fn lemma_command_parts(capdu: Seq<u8>, data: Seq<u8>, tail: Seq<u8>)
    requires
        capdu.len() >= 5,
        capdu[4] == data.len(),
        capdu.skip(5) == data + tail,
    ensures
        capdu.len() == 5 + data.len() + tail.len(),
        command_data(capdu) == Ok::<Seq<u8>, BackendError>(data),
        command_tail(capdu) == tail,
{
    let rest = data + tail;
    assert(capdu.len() == 5 + rest.len());
    assert(capdu.subrange(5, 5 + capdu[4]) =~= data) by {
        assert forall|k: int| 0 <= k < data.len() implies capdu.subrange(5, 5 + capdu[4])[k]
            == data[k] by {
            assert(capdu.skip(5)[k] == rest[k]);
        }
    }
    assert(capdu.skip(5 + capdu[4]) =~= tail) by {
        assert forall|k: int| 0 <= k < tail.len() implies capdu.skip(5 + capdu[4])[k]
            == tail[k] by {
            assert(capdu.skip(5)[data.len() + k] == rest[data.len() + k]);
        }
    }
}

/// A protected command, octet by octet. `block` is the command counter in sixteen
/// octets, `filled` the padded data, and `body` what is sent of the data: where the level
/// asks for it, encrypted from the encrypted block, and otherwise the data themselves.
/// The MAC covers the chaining value, the header and the body; its beginning is sent and
/// all of it is chained.
pub proof fn law_protected_command(
    slot: Scp03Model,
    capdu: Seq<u8>,
    data: Seq<u8>,
    tail: Seq<u8>,
    block: Seq<u8>,
    filled: Seq<u8>,
    body: Seq<u8>,
    iv: Seq<u8>,
)
    requires
        command_wrapped(slot, capdu) is Ok,
        capdu.len() >= 5,
        capdu[4] == data.len(),
        capdu.skip(5) == data + tail,
        iv.len() == 16,
        all_zero(iv),
        if slot.authed && slot.level & 0x02 != 0 && data.len() > 0 {
            &&& block.len() == 16
            &&& block[0] == 0
            &&& number(block.skip(1)) == slot.counter + 1
            &&& filled.len() % 16 == 0
            &&& data.len() < filled.len() <= data.len() + 16
            &&& filled.take(data.len() as int) == data
            &&& filled[data.len() as int] == 0x80
            &&& all_zero(filled.skip(data.len() as int + 1))
            &&& body == aes_cbc(slot.s_enc, aes_cbc(slot.s_enc, iv, block), filled)
        } else {
            body == data
        },
    ensures
        ({
            let (out, after) = command_wrapped(slot, capdu)->Ok_0;
            let n = body.len() as int;
            let width = mode_octets(slot.mode);
            let mac = cmac_tag(slot.s_mac, slot.chain + out.take(5 + n));
            &&& out.len() == 5 + n + width + tail.len()
            &&& out[0] == capdu[0] | 0x04
            &&& out.subrange(1, 4) == capdu.subrange(1, 4)
            &&& out[4] == n + width
            &&& out.subrange(5, 5 + n) == body
            &&& out.subrange(5 + n, 5 + n + width) == mac.take(width as int)
            &&& out.skip(5 + n + width) == tail
            &&& after.chain == mac
            &&& after.counter == (if slot.authed {
                slot.counter + 1
            } else {
                slot.counter as int
            })
            &&& after.level == (if slot.authed {
                slot.level
            } else {
                capdu[2]
            })
            &&& after.authed
            &&& after.mode == slot.mode
            &&& after.s_enc == slot.s_enc && after.s_mac == slot.s_mac && after.s_rmac
                == slot.s_rmac
        }),
{
    let (out, after) = command_wrapped(slot, capdu)->Ok_0;
    let width = mode_octets(slot.mode) as int;
    let n = body.len() as int;
    lemma_command_parts(capdu, data, tail);
    assert(command_data(capdu)->Ok_0 == data);
    assert(command_tail(capdu) == tail);
    if slot.authed && slot.level & 0x02 != 0 && data.len() > 0 {
        lemma_counter_block(block, (slot.counter + 1) as u32, false);
        law_one_way_to_pad(data, filled);
        assert(iv =~= zeros(16));
    }
    let header = out.take(5);
    assert(out.take(5 + n) =~= header + body);
    assert(slot.chain + header + body =~= slot.chain + out.take(5 + n));
    assert(out.subrange(1, 4) =~= capdu.subrange(1, 4));
    assert(out.subrange(5, 5 + n) =~= body);
    let mac = cmac_tag(slot.s_mac, slot.chain + out.take(5 + n));
    assert(header =~= seq![capdu[0] | 0x04, capdu[1], capdu[2], capdu[3], (n + width) as u8]);
    assert(out.subrange(5 + n, 5 + n + width) =~= mac.take(width));
    assert(out.skip(5 + n + width) =~= tail);
}

/// A protected command that consists of its header alone.
pub proof fn law_protected_header(slot: Scp03Model, capdu: Seq<u8>)
    requires
        command_wrapped(slot, capdu) is Ok,
        capdu.len() == 4,
    ensures
        ({
            let (out, after) = command_wrapped(slot, capdu)->Ok_0;
            let width = mode_octets(slot.mode);
            let mac = cmac_tag(slot.s_mac, slot.chain + out.take(5));
            &&& out.len() == 5 + width
            &&& out[0] == capdu[0] | 0x04
            &&& out.subrange(1, 4) == capdu.subrange(1, 4)
            &&& out[4] == width
            &&& out.skip(5) == mac.take(width as int)
            &&& after.chain == mac
        }),
{
    let (out, after) = command_wrapped(slot, capdu)->Ok_0;
    let width = mode_octets(slot.mode) as int;
    let header = out.take(5);
    assert(header =~= seq![capdu[0] | 0x04, capdu[1], capdu[2], capdu[3], width as u8]);
    assert(slot.chain + header + Seq::<u8>::empty() =~= slot.chain + header);
    assert(out.subrange(1, 4) =~= capdu.subrange(1, 4));
    assert(out.skip(5) =~= cmac_tag(slot.s_mac, slot.chain + header).take(width));
}

/// When a command can be protected: its data are all there, the counter has not run out,
/// before authentication it is EXTERNAL AUTHENTICATE, and the result is a short command.
pub proof fn law_command_is_protected(
    slot: Scp03Model,
    capdu: Seq<u8>,
    data: Seq<u8>,
    tail: Seq<u8>,
)
    requires
        capdu.len() >= 5,
        capdu[4] == data.len(),
        capdu.skip(5) == data + tail,
    ensures
        command_wrapped(slot, capdu) is Ok <==> {
            let n = if slot.authed && slot.level & 0x02 != 0 && data.len() > 0 {
                data.len() - data.len() % 16 + 16
            } else {
                data.len() as int
            };
            &&& slot.authed ==> slot.counter < 0xFFFF_FFFF
            &&& !slot.authed ==> capdu[1] == 0x82
            &&& n + mode_octets(slot.mode) <= 255
            &&& 5 + n + mode_octets(slot.mode) + tail.len() <= CAPDU_MAX
        },
{
    lemma_command_parts(capdu, data, tail);
    law_padding_octets(data, 16);
    assert(padded(data, 16).len() == data.len() - data.len() % 16 + 16);
}

/// A command whose data are not all there is not protected.
pub proof fn law_short_command_is_refused(slot: Scp03Model, capdu: Seq<u8>)
    requires
        capdu.len() >= 5,
        capdu.len() < 5 + capdu[4],
    ensures
        command_wrapped(slot, capdu) is Err,
{
}

/// A status word that stands for neither success nor a warning comes bare: whatever the
/// level, such a response is handed on as it is.
pub proof fn law_errors_come_bare(slot: Scp03Model, rapdu: Seq<u8>)
    requires
        slot.authed,
        2 <= rapdu.len() <= RAPDU_MAX,
        ({
            let sw = number(rapdu.skip(rapdu.len() - 2));
            &&& sw != 0x9000
            &&& !(0x6200 <= sw < 0x6400)
        }),
    ensures
        response_unwrapped(slot, rapdu) == Ok::<Seq<u8>, BackendError>(rapdu),
{
    let sw = rapdu.skip(rapdu.len() - 2);
    crate::laws::octets::lemma_number_2(sw);
    assert(!is_protected(sw));
    assert(rapdu.take(rapdu.len() - 2) + sw =~= rapdu);
}

/// A response of a card, octet by octet: `body`, where the level asks for it a MAC under
/// S-RMAC that covers the chaining value, the body and the status word, and the status
/// word. It is taken exactly where the MAC is right. Where the level asks for it the body
/// is decrypted from the encrypted counter block, marked as a response, and the padding
/// comes off.
pub proof fn law_protected_response(
    slot: Scp03Model,
    body: Seq<u8>,
    mac: Seq<u8>,
    sw: Seq<u8>,
    block: Seq<u8>,
    iv: Seq<u8>,
)
    requires
        slot.authed,
        sw.len() == 2,
        number(sw) == 0x9000 || 0x6200 <= number(sw) < 0x6400,
        mac.len() == (if slot.level & 0x10 != 0 {
            mode_octets(slot.mode)
        } else {
            0
        }),
        body.len() + 2 <= RAPDU_MAX,
        block.len() == 16,
        block[0] == 0x80,
        number(block.skip(1)) == slot.counter,
        iv.len() == 16,
        all_zero(iv),
    ensures
        ({
            let r = response_unwrapped(slot, body + mac + sw);
            let right = slot.level & 0x10 != 0 ==> mac == cmac_tag(
                slot.s_rmac,
                slot.chain + body + sw,
            ).take(mode_octets(slot.mode) as int);
            let secret = slot.level & 0x20 != 0 && body.len() > 0;
            let plain = aes_uncbc(slot.s_enc, aes_cbc(slot.s_enc, iv, block), body);
            &&& !right ==> r is Err
            &&& right && !secret ==> r == Ok::<Seq<u8>, BackendError>(body + sw)
            &&& right && secret && body.len() % 16 != 0 ==> r is Err
            &&& right && secret && body.len() % 16 == 0 && padding_start(plain) is None ==> r is Err
            &&& right && secret && body.len() % 16 == 0 && plain.len() == body.len() ==> (
            padding_start(plain) matches Some(n) ==> r == Ok::<Seq<u8>, BackendError>(
                plain.take(n as int) + sw,
            ))
        }),
{
    crate::laws::octets::lemma_number_2(sw);
    lemma_counter_block(block, slot.counter, true);
    assert(iv =~= zeros(16));
    let rapdu = body + mac + sw;
    let all = rapdu.take(rapdu.len() - 2);
    assert(rapdu.skip(rapdu.len() - 2) =~= sw);
    assert(all =~= body + mac);
    assert(is_protected(sw));
    if slot.level & 0x10 != 0 {
        let width = mode_octets(slot.mode) as int;
        assert(all.take(all.len() - width) =~= body);
        assert(all.skip(all.len() - width) =~= mac);
    } else {
        assert(all =~= body);
    }
    let plain = aes_uncbc(slot.s_enc, aes_cbc(slot.s_enc, iv, block), body);
    crate::laws::ciphers::law_padding_is_marked(plain);
}

/// Protecting and verifying by a session's handle touches no other session and no key;
/// a command that cannot be protected changes nothing, a response that is taken leaves
/// the session as it is, and a session that was closed is gone.
pub proof fn law_sessions_are_apart(store: Store, s: Scp03Session, apdu: Seq<u8>)
    requires
        s.0 < store.scp03.len(),
    ensures
        ({
            let (sent, wrapped) = command_wrapped_by(store, s, apdu);
            let (got, unwrapped) = response_unwrapped_by(store, s, apdu);
            &&& sent is Err ==> wrapped == store
            &&& got is Ok ==> unwrapped == store
            &&& sent is Ok ==> {
                &&& held(store.scp03, s.0) is Some
                &&& held(wrapped.scp03, s.0) is Some
                &&& apdu.len() >= 4
                &&& command_wrapped(held(store.scp03, s.0)->Some_0, apdu) == Ok::<
                    (Seq<u8>, Scp03Model),
                    BackendError,
                >((sent->Ok_0, held(wrapped.scp03, s.0)->Some_0))
            }
            &&& got is Ok ==> {
                &&& held(store.scp03, s.0) is Some
                &&& response_unwrapped(held(store.scp03, s.0)->Some_0, apdu) == got
            }
            &&& wrapped.keys == store.keys && unwrapped.keys == store.keys
            &&& wrapped.scp02 == store.scp02 && unwrapped.scp02 == store.scp02
            &&& held(session_closed(store, s).scp03, s.0) is None
            &&& forall|i: u16|
                i != s.0 ==> {
                    &&& #[trigger] held(wrapped.scp03, i) == held(store.scp03, i)
                    &&& held(unwrapped.scp03, i) == held(store.scp03, i)
                    &&& held(session_closed(store, s).scp03, i) == held(store.scp03, i)
                }
        }),
{
}

/// A command that is a header alone is protected as one with a length of zero is.
pub proof fn law_header_alone(slot: Scp03Model, capdu: Seq<u8>)
    requires
        capdu.len() == 4,
    ensures
        command_wrapped(slot, capdu) == command_wrapped(slot, capdu.push(0)),
{
    let none = Seq::<u8>::empty();
    assert(capdu.push(0).skip(5) =~= none + none);
    lemma_command_parts(capdu.push(0), none, none);
}

/// Which commands are taken: those with a whole header, on a session that is open. A command
/// that is protected changes that session alone, and one that is not changes nothing.
pub proof fn law_which_commands_are_taken(store: Store, s: Scp03Session, capdu: Seq<u8>, i: int)
    requires
        0 <= i < store.scp03.len(),
    ensures
        ({
            let (r, after) = command_wrapped_by(store, s, capdu);
            let slot = held(store.scp03, s.0)->Some_0;
            let taken = capdu.len() >= 4 && held(store.scp03, s.0) is Some;
            &&& r is Ok <==> taken && command_wrapped(slot, capdu) is Ok
            &&& r is Ok ==> {
                &&& r->Ok_0 == command_wrapped(slot, capdu)->Ok_0.0
                &&& after.scp03[s.0 as int] == Some(command_wrapped(slot, capdu)->Ok_0.1)
            }
            &&& r is Err ==> after == store
            &&& i != s.0 ==> after.scp03[i] == store.scp03[i]
            &&& after.scp02 == store.scp02
            &&& after.keys == store.keys
        }),
{
}

/// Challenges of more than 32 octets together give no cryptogram, and neither does a session
/// that is not open.
pub proof fn law_no_cryptogram(
    store: Store,
    s: Scp03Session,
    host: Seq<u8>,
    card: Seq<u8>,
    constant: u8,
)
    ensures
        cryptogram_of(store, s, host, card, constant) is Ok <==> host.len() + card.len() <= 32
            && held(store.scp03, s.0) is Some,
{
}

} // verus!
