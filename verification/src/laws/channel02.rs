//! SCP02 in the software backend: session keys, cryptograms, commands and responses.
use vstd::prelude::*;

use crate::backend::{KeyHandle, Scp02Session};
use crate::error::BackendError;
use crate::laws::channel03::lemma_command_parts;
use crate::laws::ciphers::law_padding_octets;
use crate::laws::octets::all_zero;
use crate::rustcrypto::{first_free, held, Scp02Model, Store};
use crate::rustcrypto::crypto::{
    des_chain, law_retail_mac_length, padded, retail_mac_of, tdes_chain, tdes_mac_of, zeros,
};
use crate::rustcrypto::key::lemma_free_is_inside;
use crate::rustcrypto::scp02::{
    command_wrapped, command_wrapped_by, cryptogram_of, key_payload_of, response_unwrapped,
    response_unwrapped_by, session_closed, session_derived,
};

verus! {

/// What a session key is derived from: two constant octets, the two octets of the
/// sequence counter, and twelve zeros.
pub open spec fn derivation_data(data: Seq<u8>, c0: u8, c1: u8, counter: Seq<u8>) -> bool {
    &&& data.len() == 16
    &&& data[0] == c0
    &&& data[1] == c1
    &&& data.subrange(2, 4) == counter
    &&& all_zero(data.skip(4))
}

proof fn lemma_derivation_data(data: Seq<u8>, c0: u8, c1: u8, counter: Seq<u8>)
    requires
        derivation_data(data, c0, c1, counter),
    ensures
        counter.len() == 2,
        data == seq![c0, c1] + counter + zeros(12),
{
    let made = seq![c0, c1] + counter + zeros(12);
    assert(counter.len() == 2);
    assert(data =~= made) by {
        assert forall|k: int| 0 <= k < 16 implies data[k] == made[k] by {
            if 2 <= k < 4 {
                assert(data.subrange(2, 4)[k - 2] == counter[k - 2]);
            } else if k >= 4 {
                assert(data.skip(4)[k - 4] == 0);
            }
        }
    }
}

/// The keys of a new session: each is triple DES in CBC mode from eight zeros, over
/// `0182` and the sequence counter under the encryption key for S-ENC, over `0101` and
/// `0102` under the MAC key for S-MAC and S-RMAC, and over `0181` under the key
/// encryption key for S-DEK. Nothing is chained or authenticated yet. Every other
/// session, and every key, stays.
pub proof fn law_session_keys(
    store: Store,
    enc: KeyHandle,
    mac: KeyHandle,
    dek: KeyHandle,
    counter: Seq<u8>,
    iv: Seq<u8>,
    d_enc: Seq<u8>,
    d_mac: Seq<u8>,
    d_rmac: Seq<u8>,
    d_dek: Seq<u8>,
)
    requires
        session_derived(store, enc, mac, dek, counter).0 is Ok,
        store.scp02.len() <= u16::MAX,
        iv.len() == 8,
        all_zero(iv),
        derivation_data(d_enc, 0x01, 0x82, counter),
        derivation_data(d_mac, 0x01, 0x01, counter),
        derivation_data(d_rmac, 0x01, 0x02, counter),
        derivation_data(d_dek, 0x01, 0x81, counter),
    ensures
        held(store.keys, enc.0) is Some,
        held(store.keys, mac.0) is Some,
        held(store.keys, dek.0) is Some,
        ({
            let (r, after) = session_derived(store, enc, mac, dek, counter);
            &&& held(store.scp02, r->Ok_0.0) is None
            &&& held(after.scp02, r->Ok_0.0) matches Some(slot) && {
                &&& slot.s_enc == tdes_chain(held(store.keys, enc.0)->Some_0.bytes, iv, d_enc)
                &&& slot.s_mac == tdes_chain(held(store.keys, mac.0)->Some_0.bytes, iv, d_mac)
                &&& slot.s_rmac == tdes_chain(held(store.keys, mac.0)->Some_0.bytes, iv, d_rmac)
                &&& slot.s_dek == tdes_chain(held(store.keys, dek.0)->Some_0.bytes, iv, d_dek)
                &&& !slot.icv_valid
                &&& !slot.authed
                &&& slot.rmac_buf.len() == 0
            }
            &&& forall|i: u16|
                i != r->Ok_0.0 ==> #[trigger] held(after.scp02, i) == held(store.scp02, i)
            &&& after.keys == store.keys
            &&& after.scp03 == store.scp03
        }),
{
    lemma_free_is_inside(store.scp02);
    assert(iv =~= zeros(8));
    lemma_derivation_data(d_enc, 0x01, 0x82, counter);
    lemma_derivation_data(d_mac, 0x01, 0x01, counter);
    lemma_derivation_data(d_rmac, 0x01, 0x02, counter);
    lemma_derivation_data(d_dek, 0x01, 0x81, counter);
}

/// When a session can be derived: all three keys are there and are double-length DES
/// keys, and a slot is free.
pub proof fn law_session_is_derived(
    store: Store,
    enc: KeyHandle,
    mac: KeyHandle,
    dek: KeyHandle,
    counter: Seq<u8>,
)
    ensures
        session_derived(store, enc, mac, dek, counter).0 is Ok <==> {
            &&& held(store.keys, enc.0) matches Some(k) && k.kind is TripleDesDouble
            &&& held(store.keys, mac.0) matches Some(k) && k.kind is TripleDesDouble
            &&& held(store.keys, dek.0) matches Some(k) && k.kind is TripleDesDouble
            &&& first_free(store.scp02) is Some
        },
        session_derived(store, enc, mac, dek, counter).0 is Err ==> session_derived(
            store,
            enc,
            mac,
            dek,
            counter,
        ).1 == store,
{
}

/// A cryptogram is the full triple DES MAC under S-ENC, from eight zeros, over its two
/// parts, one behind the other.
pub proof fn law_cryptograms(
    store: Store,
    s: Scp02Session,
    head: Seq<u8>,
    tail: Seq<u8>,
    iv: Seq<u8>,
)
    requires
        held(store.scp02, s.0) is Some,
        iv.len() == 8,
        all_zero(iv),
    ensures
        cryptogram_of(store, s, head, tail) == Ok::<Seq<u8>, BackendError>(
            tdes_mac_of(held(store.scp02, s.0)->Some_0.s_enc, iv, head + tail),
        ),
{
    assert(iv =~= zeros(8));
}

/// A new key is encrypted under S-DEK block by block, each from eight zeros.
pub proof fn law_key_payload(store: Store, s: Scp02Session, new_key: KeyHandle, iv: Seq<u8>)
    requires
        held(store.scp02, s.0) is Some,
        held(store.keys, new_key.0) matches Some(k) && k.kind is TripleDesDouble
            && k.bytes.len() == 16,
        iv.len() == 8,
        all_zero(iv),
    ensures
        ({
            let s_dek = held(store.scp02, s.0)->Some_0.s_dek;
            let key = held(store.keys, new_key.0)->Some_0.bytes;
            key_payload_of(store, s, new_key) matches Ok(out) && {
                &&& out.len() == 16
                &&& out.take(8) == tdes_chain(s_dek, iv, key.subrange(0, 8))
                &&& out.skip(8) == tdes_chain(s_dek, iv, key.subrange(8, 16))
            }
        }),
{
    assert(iv =~= zeros(8));
    let key = held(store.keys, new_key.0)->Some_0.bytes;
    let s_dek = held(store.scp02, s.0)->Some_0.s_dek;
    let out = key_payload_of(store, s, new_key)->Ok_0;
    assert(key.take(8) =~= key.subrange(0, 8));
    assert(key.skip(8) =~= key.subrange(8, 16));
    assert(out.take(8) =~= tdes_chain(s_dek, iv, key.subrange(0, 8)));
    assert(out.skip(8) =~= tdes_chain(s_dek, iv, key.subrange(8, 16)));
}

/// A protected command, octet by octet. The MAC covers the header, with the length that
/// the data in clear and the MAC have, and the data in clear; it starts from eight zeros
/// and later from the MAC before, encrypted with single DES under the first half of
/// S-MAC. What is sent has the length of the body and the MAC; the body is encrypted in
/// CBC mode from eight zeros where the level asks for it.
pub proof fn law_protected_command(
    slot: Scp02Model,
    capdu: Seq<u8>,
    data: Seq<u8>,
    tail: Seq<u8>,
    start: Seq<u8>,
    signed: Seq<u8>,
    body: Seq<u8>,
    iv: Seq<u8>,
)
    requires
        command_wrapped(slot, capdu) is Ok,
        capdu.len() >= 5,
        capdu[4] == data.len(),
        capdu.skip(5) == data + tail,
        iv.len() == 8,
        all_zero(iv),
        start == (if slot.icv_valid {
            des_chain(slot.s_mac.take(8), iv, slot.icv)
        } else {
            iv
        }),
        signed.len() == 5 + data.len(),
        signed[0] == capdu[0] | 0x04,
        signed.subrange(1, 4) == capdu.subrange(1, 4),
        signed[4] == data.len() + 8,
        signed.skip(5) == data,
        body == (if slot.authed && slot.level & 0x02 != 0 && data.len() > 0 {
            tdes_chain(slot.s_enc, iv, padded(data, 8))
        } else {
            data
        }),
    ensures
        ({
            let (out, after) = command_wrapped(slot, capdu)->Ok_0;
            let n = body.len() as int;
            let mac = retail_mac_of(slot.s_mac, start, signed);
            &&& out.len() == 5 + n + 8
            &&& out[0] == capdu[0] | 0x04
            &&& out.subrange(1, 4) == capdu.subrange(1, 4)
            &&& out[4] == n + 8
            &&& out.subrange(5, 5 + n) == body
            &&& out.skip(5 + n) == mac
            &&& after.icv == mac
            &&& after.icv_valid
            &&& after.authed
            &&& after.level == (if slot.authed {
                slot.level
            } else {
                capdu[2]
            })
            &&& after.ricv == (if slot.authed {
                slot.ricv
            } else {
                mac
            })
            &&& after.s_enc == slot.s_enc && after.s_mac == slot.s_mac && after.s_rmac
                == slot.s_rmac && after.s_dek == slot.s_dek
        }),
{
    lemma_command_parts(capdu, data, tail);
    assert(iv =~= zeros(8));
    let (out, after) = command_wrapped(slot, capdu)->Ok_0;
    let n = body.len() as int;
    let made = seq![capdu[0] | 0x04, capdu[1], capdu[2], capdu[3], (data.len() + 8) as u8] + data;
    assert(signed =~= made) by {
        assert forall|k: int| 0 <= k < signed.len() implies signed[k] == made[k] by {
            if 1 <= k < 4 {
                assert(signed.subrange(1, 4)[k - 1] == signed[k]);
                assert(capdu.subrange(1, 4)[k - 1] == capdu[k]);
                assert(k == 1 || k == 2 || k == 3);
            } else if k >= 5 {
                assert(signed.skip(5)[k - 5] == data[k - 5]);
            }
        }
    }
    law_retail_mac_length(slot.s_mac, start, signed);
    assert(out.subrange(1, 4) =~= capdu.subrange(1, 4));
    assert(out.subrange(5, 5 + n) =~= body);
    assert(out.skip(5 + n) =~= retail_mac_of(slot.s_mac, start, signed));
}

/// A protected command that consists of its header alone is the header of a command
/// without data, and its MAC.
pub proof fn law_protected_header(
    slot: Scp02Model,
    capdu: Seq<u8>,
    signed: Seq<u8>,
    start: Seq<u8>,
    iv: Seq<u8>,
)
    requires
        command_wrapped(slot, capdu) is Ok,
        capdu.len() == 4,
        iv.len() == 8,
        all_zero(iv),
        start == (if slot.icv_valid {
            des_chain(slot.s_mac.take(8), iv, slot.icv)
        } else {
            iv
        }),
        signed.len() == 5,
        signed[0] == capdu[0] | 0x04,
        signed.subrange(1, 4) == capdu.subrange(1, 4),
        signed[4] == 8,
    ensures
        command_wrapped(slot, capdu)->Ok_0.0 == signed + retail_mac_of(slot.s_mac, start, signed),
{
    assert(iv =~= zeros(8));
    assert(signed[1] == capdu.subrange(1, 4)[0]);
    assert(signed[2] == signed.subrange(1, 4)[1] && signed[2] == capdu.subrange(1, 4)[1]);
    assert(signed[3] == signed.subrange(1, 4)[2] && signed[3] == capdu.subrange(1, 4)[2]);
    let header = seq![capdu[0] | 0x04, capdu[1], capdu[2], capdu[3], 8u8];
    assert(signed =~= header);
    assert(header + Seq::<u8>::empty() =~= header);
}

/// When a command can be protected: its data are all there, before authentication it is
/// EXTERNAL AUTHENTICATE, and the result is a short command.
pub proof fn law_command_is_protected(
    slot: Scp02Model,
    capdu: Seq<u8>,
    data: Seq<u8>,
    tail: Seq<u8>,
)
    requires
        capdu.len() >= 5,
        capdu[4] == data.len(),
        capdu.skip(5) == data + tail,
    ensures
        command_wrapped(slot, capdu) is Ok <==> {
            let n = if slot.authed && slot.level & 0x02 != 0 && data.len() > 0 {
                data.len() - data.len() % 8 + 8
            } else {
                data.len() as int
            };
            &&& !slot.authed ==> capdu[1] == 0x82
            &&& n + 8 <= 255
        },
{
    lemma_command_parts(capdu, data, tail);
    law_padding_octets(data, 8);
    assert(padded(data, 8).len() == data.len() - data.len() % 8 + 8);
}

/// What a response MAC covers of a command: the plain class, the rest of the header, the
/// length of the data, and the data in clear. It is kept where the level asks for a
/// response MAC, from the command behind EXTERNAL AUTHENTICATE on.
pub proof fn law_command_is_kept_for_the_response(
    slot: Scp02Model,
    capdu: Seq<u8>,
    data: Seq<u8>,
    tail: Seq<u8>,
)
    requires
        command_wrapped(slot, capdu) is Ok,
        capdu.len() >= 5,
        capdu[4] == data.len(),
        capdu.skip(5) == data + tail,
        slot.authed,
    ensures
        ({
            let kept = command_wrapped(slot, capdu)->Ok_0.1.rmac_buf;
            &&& slot.level & 0x10 != 0 ==> {
                &&& kept.len() == 5 + data.len()
                &&& kept[0] == capdu[0] & 0xF8
                &&& kept.subrange(1, 4) == capdu.subrange(1, 4)
                &&& kept[4] == data.len()
                &&& kept.skip(5) == data
            }
            &&& slot.level & 0x10 == 0 ==> kept == slot.rmac_buf
        }),
{
    lemma_command_parts(capdu, data, tail);
    let kept = command_wrapped(slot, capdu)->Ok_0.1.rmac_buf;
    if slot.level & 0x10 != 0 {
        assert(kept.subrange(1, 4) =~= capdu.subrange(1, 4));
        assert(kept.skip(5) =~= data);
    }
}

/// A response of a card, octet by octet: data, a MAC and a status word. The MAC is the
/// retail MAC under S-RMAC from the MAC before, over the kept command, the length of the
/// data, the data and the status word. It is taken exactly where the MAC is right, and
/// the MAC starts the next one.
pub proof fn law_protected_response(
    slot: Scp02Model,
    data: Seq<u8>,
    mac: Seq<u8>,
    sw: Seq<u8>,
    covered: Seq<u8>,
)
    requires
        slot.authed,
        slot.level & 0x10 != 0,
        slot.rmac_buf.len() <= 260,
        mac.len() == 8,
        sw.len() == 2,
        data.len() <= 255,
        ({
            let k = slot.rmac_buf.len() as int;
            &&& covered.len() == k + 1 + data.len() + 2
            &&& covered.take(k) == slot.rmac_buf
            &&& covered[k] == data.len()
            &&& covered.subrange(k + 1, k + 1 + data.len()) == data
            &&& covered.skip(k + 1 + data.len()) == sw
        }),
    ensures
        ({
            let r = response_unwrapped(slot, data + mac + sw);
            &&& mac == retail_mac_of(slot.s_rmac, slot.ricv, covered) ==> r == Ok::<
                (Seq<u8>, Seq<u8>),
                BackendError,
            >((data + sw, mac))
            &&& mac != retail_mac_of(slot.s_rmac, slot.ricv, covered) ==> r is Err
        }),
{
    let rapdu = data + mac + sw;
    let body = rapdu.take(rapdu.len() - 2);
    assert(rapdu.skip(rapdu.len() - 2) =~= sw);
    assert(body =~= data + mac);
    assert(body.take(body.len() - 8) =~= data);
    assert(body.skip(body.len() - 8) =~= mac);
    let k = slot.rmac_buf.len() as int;
    let made = slot.rmac_buf + seq![(data.len() % 256) as u8] + data + sw;
    assert(covered =~= made) by {
        assert forall|j: int| 0 <= j < covered.len() implies covered[j] == made[j] by {
            if j < k {
                assert(covered.take(k)[j] == slot.rmac_buf[j]);
            } else if k < j < k + 1 + data.len() {
                assert(covered.subrange(k + 1, k + 1 + data.len())[j - k - 1] == data[j - k - 1]);
            } else if j >= k + 1 + data.len() {
                assert(covered.skip(k + 1 + data.len())[j - k - 1 - data.len()] == sw[j - k - 1
                    - data.len()]);
            }
        }
    }
}

/// Protecting and verifying by a session's handle touches no other session and no key; a
/// command that cannot be protected changes nothing, a response that is taken leaves all
/// of the session but its response chain, and a session that was closed is gone.
pub proof fn law_sessions_are_apart(store: Store, s: Scp02Session, apdu: Seq<u8>)
    requires
        s.0 < store.scp02.len(),
    ensures
        ({
            let (sent, wrapped) = command_wrapped_by(store, s, apdu);
            let (got, unwrapped) = response_unwrapped_by(store, s, apdu);
            &&& sent is Err ==> wrapped == store
            &&& sent is Ok ==> {
                &&& held(store.scp02, s.0) is Some
                &&& held(wrapped.scp02, s.0) is Some
                &&& apdu.len() >= 4
                &&& command_wrapped(held(store.scp02, s.0)->Some_0, apdu) == Ok::<
                    (Seq<u8>, Scp02Model),
                    BackendError,
                >((sent->Ok_0, held(wrapped.scp02, s.0)->Some_0))
            }
            &&& got is Ok ==> {
                &&& held(store.scp02, s.0) is Some
                &&& held(unwrapped.scp02, s.0) is Some
                &&& response_unwrapped(held(store.scp02, s.0)->Some_0, apdu) == Ok::<
                    (Seq<u8>, Seq<u8>),
                    BackendError,
                >((got->Ok_0, held(unwrapped.scp02, s.0)->Some_0.ricv))
                &&& held(unwrapped.scp02, s.0)->Some_0 == (Scp02Model {
                    ricv: held(unwrapped.scp02, s.0)->Some_0.ricv,
                    rmac_buf: Seq::empty(),
                    ..held(store.scp02, s.0)->Some_0
                })
            }
            &&& wrapped.keys == store.keys && unwrapped.keys == store.keys
            &&& wrapped.scp03 == store.scp03 && unwrapped.scp03 == store.scp03
            &&& held(session_closed(store, s).scp02, s.0) is None
            &&& forall|i: u16|
                i != s.0 ==> {
                    &&& #[trigger] held(wrapped.scp02, i) == held(store.scp02, i)
                    &&& held(unwrapped.scp02, i) == held(store.scp02, i)
                    &&& held(session_closed(store, s).scp02, i) == held(store.scp02, i)
                }
        }),
{
}

/// A command that is a header alone is protected as one with a length of zero is.
pub proof fn law_header_alone(slot: Scp02Model, capdu: Seq<u8>)
    requires
        capdu.len() == 4,
    ensures
        command_wrapped(slot, capdu) == command_wrapped(slot, capdu.push(0)),
{
    let none = Seq::<u8>::empty();
    assert(capdu.push(0).skip(5) =~= none + none);
    lemma_command_parts(capdu.push(0), none, none);
}

/// Which commands are taken: those with a whole header, on a session that is open. A command
/// that is protected changes that session alone, and one that is not changes nothing.
pub proof fn law_which_commands_are_taken(store: Store, s: Scp02Session, capdu: Seq<u8>, i: int)
    requires
        0 <= i < store.scp02.len(),
    ensures
        ({
            let (r, after) = command_wrapped_by(store, s, capdu);
            let slot = held(store.scp02, s.0)->Some_0;
            let taken = capdu.len() >= 4 && held(store.scp02, s.0) is Some;
            &&& r is Ok <==> taken && command_wrapped(slot, capdu) is Ok
            &&& r is Ok ==> {
                &&& r->Ok_0 == command_wrapped(slot, capdu)->Ok_0.0
                &&& after.scp02[s.0 as int] == Some(command_wrapped(slot, capdu)->Ok_0.1)
            }
            &&& r is Err ==> after == store
            &&& i != s.0 ==> after.scp02[i] == store.scp02[i]
            &&& after.scp03 == store.scp03
            &&& after.keys == store.keys
        }),
{
}

} // verus!
