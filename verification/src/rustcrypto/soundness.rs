//! What holds of everything that a backend keeps, and the lengths that follow from it.
use vstd::prelude::*;

use crate::backend::{KeyHandle, KeyKind, Scp02Session, Scp03Session, ScpMode};
use crate::command::load::load_p1;
use crate::command::short_apdu;
use crate::limits::LOAD_BLOCK_DATA;
use crate::rustcrypto::crypto::{
    cmac_tag, derived, is_aes_key, kdf_blocks, kdf_input, law_retail_mac_length,
    law_unpad_inverts_pad,
};
use crate::rustcrypto::key::{imported, lemma_free_is_inside, stored};
use crate::rustcrypto::scp02;
use crate::rustcrypto::scp03;
use crate::rustcrypto::scp03::{aes_key_of, command_data, command_tail};
use crate::rustcrypto::{
    empty_store, held, KeyModel, Scp02Model, Scp03Model, Store, MAX_KEY_SLOTS,
    MAX_SESSION_SLOTS,
};

verus! {

/// A key is as long as its kind says.
pub open spec fn key_sound(key: KeyModel) -> bool {
    key.bytes.len() == key.kind.len()
}

/// The keys of an SCP03 session are AES keys of one length, and its chaining value is a
/// whole MAC.
pub open spec fn scp03_sound(slot: Scp03Model) -> bool {
    &&& is_aes_key(slot.s_enc)
    &&& slot.s_mac.len() == slot.s_enc.len()
    &&& slot.s_rmac.len() == slot.s_enc.len()
    &&& slot.chain.len() == 16
}

/// The keys of an SCP02 session are double-length DES keys, its chaining values are one
/// block each, and the command that it keeps is a short one.
pub open spec fn scp02_sound(slot: Scp02Model) -> bool {
    &&& slot.s_enc.len() == 16
    &&& slot.s_mac.len() == 16
    &&& slot.s_rmac.len() == 16
    &&& slot.s_dek.len() == 16
    &&& slot.icv.len() == 8
    &&& slot.ricv.len() == 8
    &&& slot.rmac_buf.len() <= 260
}

/// The tables have their size, and everything in them is sound.
pub open spec fn store_sound(store: Store) -> bool {
    &&& store.keys.len() == MAX_KEY_SLOTS
    &&& store.scp03.len() == MAX_SESSION_SLOTS
    &&& store.scp02.len() == MAX_SESSION_SLOTS
    &&& forall|i: int|
        0 <= i < store.keys.len() ==> (#[trigger] store.keys[i] matches Some(key) ==> key_sound(
            key,
        ))
    &&& forall|i: int|
        0 <= i < store.scp03.len() ==> (#[trigger] store.scp03[i] matches Some(slot)
            ==> scp03_sound(slot))
    &&& forall|i: int|
        0 <= i < store.scp02.len() ==> (#[trigger] store.scp02[i] matches Some(slot)
            ==> scp02_sound(slot))
}

/// A new backend is sound.
pub proof fn law_new_store_is_sound()
    ensures
        store_sound(empty_store()),
{
}

/// Storing and importing keys keeps the store sound.
pub proof fn law_keys_keep_the_store_sound(store: Store, kind: KeyKind, bytes: Seq<u8>)
    requires
        store_sound(store),
    ensures
        bytes.len() == kind.len() ==> store_sound(stored(store, kind, bytes).1),
        store_sound(imported(store, kind, bytes).1),
{
    lemma_free_is_inside(store.keys);
}

// ---- SCP03 -----------------------------------------------------------------

proof fn lemma_kdf_blocks_len(key: Seq<u8>, constant: u8, l_bits: u16, context: Seq<u8>, n: nat)
    ensures
        kdf_blocks(key, constant, l_bits, context, n).len() == 16 * n,
    decreases n,
{
    if n > 0 {
        lemma_kdf_blocks_len(key, constant, l_bits, context, (n - 1) as nat);
        assert(cmac_tag(key, kdf_input(constant, l_bits, (n % 256) as u8, context)).len() == 16);
    }
}

/// A derived key has the length that was asked for.
pub proof fn law_derived_length(
    key: Seq<u8>,
    constant: u8,
    l_bits: u16,
    context: Seq<u8>,
    len: nat,
)
    ensures
        derived(key, constant, l_bits, context, len).len() == len,
{
    lemma_kdf_blocks_len(key, constant, l_bits, context, (len + 15) / 16);
}

/// Deriving, using and closing SCP03 sessions keeps the store sound.
pub proof fn law_scp03_keeps_the_store_sound(
    store: Store,
    s: Scp03Session,
    enc: KeyHandle,
    mac: KeyHandle,
    mode: ScpMode,
    host: Seq<u8>,
    card: Seq<u8>,
    apdu: Seq<u8>,
)
    requires
        store_sound(store),
    ensures
        store_sound(scp03::session_derived(store, enc, mac, mode, host, card).1),
        store_sound(scp03::command_wrapped_by(store, s, apdu).1),
        store_sound(scp03::response_unwrapped_by(store, s, apdu).1),
        store_sound(scp03::session_closed(store, s)),
{
    lemma_free_is_inside(store.scp03);
    if let (Ok(k_enc), Ok(k_mac)) = (aes_key_of(store, enc), aes_key_of(store, mac)) {
        let bits = (8 * k_enc.len()) as u16;
        law_derived_length(k_enc, 0x04, bits, host + card, k_enc.len());
        law_derived_length(k_mac, 0x06, bits, host + card, k_enc.len());
        law_derived_length(k_mac, 0x07, bits, host + card, k_enc.len());
        assert(is_aes_key(k_enc));
    }
}

/// The length of the data of a command as they are sent: whole blocks where they are
/// encrypted.
pub open spec fn body_len(encrypted: bool, block: int, len: int) -> int {
    if encrypted && len > 0 {
        len - len % block + block
    } else {
        len
    }
}

/// A command that SCP03 protects is five bytes of header, the data (in whole blocks of 16
/// bytes where they are encrypted), a MAC of the session's width, and what followed the
/// data. The keys behind it are AES keys of one length, and the chaining value that it
/// leaves is a whole MAC of 16 bytes.
pub proof fn law_scp03_command_length(store: Store, s: Scp03Session, capdu: Seq<u8>)
    requires
        store_sound(store),
        scp03::command_wrapped_by(store, s, capdu).0 is Ok,
    ensures
        ({
            let out = scp03::command_wrapped_by(store, s, capdu).0->Ok_0;
            let after = scp03::command_wrapped_by(store, s, capdu).1;
            let slot = held(store.scp03, s.0)->Some_0;
            let data = command_data(capdu)->Ok_0;
            let body = body_len(
                slot.authed && slot.level & 0x02 != 0,
                16,
                data.len() as int,
            );
            &&& held(store.scp03, s.0) is Some
            &&& scp03_sound(slot)
            &&& out.len() == 5 + body + slot.mode.width() + command_tail(capdu).len()
            &&& out[4] == body + slot.mode.width()
            &&& held(after.scp03, s.0) matches Some(then) && then.chain.len() == 16
            &&& out.subrange(5 + body, 5 + body + slot.mode.width()) == held(
                after.scp03,
                s.0,
            )->Some_0.chain.take(slot.mode.width() as int)
        }),
{
    let slot = held(store.scp03, s.0)->Some_0;
    let out = scp03::command_wrapped_by(store, s, capdu).0->Ok_0;
    let data = command_data(capdu)->Ok_0;
    law_unpad_inverts_pad(data, 16);
    let chain = scp03::command_wrapped(slot, capdu)->Ok_0.1.chain;
    let width = slot.mode.width() as int;
    let at = out.len() - command_tail(capdu).len() - width;
    assert(out.subrange(at, at + width) =~= chain.take(width));
}

// ---- SCP02 -----------------------------------------------------------------

/// Deriving, using and closing SCP02 sessions keeps the store sound.
pub proof fn law_scp02_keeps_the_store_sound(
    store: Store,
    s: Scp02Session,
    enc: KeyHandle,
    mac: KeyHandle,
    dek: KeyHandle,
    counter: Seq<u8>,
    apdu: Seq<u8>,
)
    requires
        store_sound(store),
        counter.len() == 2,
    ensures
        store_sound(scp02::session_derived(store, enc, mac, dek, counter).1),
        store_sound(scp02::command_wrapped_by(store, s, apdu).1),
        store_sound(scp02::response_unwrapped_by(store, s, apdu).1),
        store_sound(scp02::session_closed(store, s)),
{
    lemma_free_is_inside(store.scp02);
    if let Some(slot) = held(store.scp02, s.0) {
        if let Ok(data) = command_data(apdu) {
            law_retail_mac_length(
                slot.s_mac,
                scp02::mac_start(slot),
                scp02::secure_header(apdu, data.len() as int) + data,
            );
        }
        if apdu.len() >= 10 {
            let body = apdu.take(apdu.len() - 2);
            law_retail_mac_length(
                slot.s_rmac,
                slot.ricv,
                scp02::rmac_input(
                    slot,
                    body.take(body.len() - 8),
                    apdu.skip(apdu.len() - 2),
                ),
            );
        }
    }
}

/// A command that SCP02 protects is five bytes of header, the data (in whole blocks of 8
/// bytes where they are encrypted) and a MAC of 8 bytes, which is the chaining value that
/// it leaves. The keys behind it are double-length DES keys.
pub proof fn law_scp02_command_length(store: Store, s: Scp02Session, capdu: Seq<u8>)
    requires
        store_sound(store),
        scp02::command_wrapped_by(store, s, capdu).0 is Ok,
    ensures
        ({
            let out = scp02::command_wrapped_by(store, s, capdu).0->Ok_0;
            let after = scp02::command_wrapped_by(store, s, capdu).1;
            let slot = held(store.scp02, s.0)->Some_0;
            let data = command_data(capdu)->Ok_0;
            let body = body_len(
                slot.authed && slot.level & 0x02 != 0,
                8,
                data.len() as int,
            );
            &&& held(store.scp02, s.0) is Some
            &&& scp02_sound(slot)
            &&& out.len() == 5 + body + 8
            &&& out[4] == body + 8
            &&& held(after.scp02, s.0) matches Some(then) && then.icv.len() == 8
            &&& out.skip(5 + body) == held(after.scp02, s.0)->Some_0.icv
        }),
{
    let slot = held(store.scp02, s.0)->Some_0;
    let out = scp02::command_wrapped_by(store, s, capdu).0->Ok_0;
    let data = command_data(capdu)->Ok_0;
    law_unpad_inverts_pad(data, 8);
    law_retail_mac_length(
        slot.s_mac,
        scp02::mac_start(slot),
        scp02::secure_header(capdu, data.len() as int) + data,
    );
    let mac = scp02::command_mac(slot, capdu, data);
    assert(out.skip(out.len() - 8) =~= mac);
}

// ---- Load blocks -----------------------------------------------------------

/// A block of a load file is small enough to be protected in every session: over SCP03
/// in both modes, as long as the counter can go up, and over SCP02; encrypted or not.
pub proof fn law_load_blocks_can_be_protected(
    modern: Scp03Model,
    older: Scp02Model,
    last: bool,
    number: u8,
    chunk: Seq<u8>,
)
    requires
        modern.authed,
        modern.counter < u32::MAX,
        older.authed,
        0 < chunk.len() <= LOAD_BLOCK_DATA,
    ensures
        ({
            let load = short_apdu(0x84, 0xE8, load_p1(last), number, chunk, true);
            &&& scp03::command_wrapped(modern, load) is Ok
            &&& scp02::command_wrapped(older, load) is Ok
        }),
{
    let load = short_apdu(0x84, 0xE8, load_p1(last), number, chunk, true);
    assert(load.subrange(5, 5 + load[4]) =~= chunk);
    law_unpad_inverts_pad(chunk, 16);
    law_unpad_inverts_pad(chunk, 8);
}

} // verus!
