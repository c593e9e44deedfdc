//! What cards answer: keys, channels, capabilities and registry entries.
use vstd::prelude::*;

use crate::laws::objects::law_all_objects_come_back;
use crate::limits::{
    MAX_KEYSETS, MAX_KEYS_PER_SET, MAX_MODULES_PER_ELF, MAX_PRIVILEGE_BYTES, MAX_REGISTRY_ENTRIES,
    MAX_SCP_VARIANTS, MAX_TLVS,
};
use crate::model::{KeyInfo, KeyTemplateFormat, KeyType, KeysetView, ScpVariant};
use crate::report::CardLifeCycle;
use crate::response::{
    capability_fields, card_capabilities, card_recognition, entry_is_extended, entry_keys,
    first_value, grouped, key_information, key_type_of, keys_of_version,
    law_keysets_group_by_version, life_cycle_of, listed_keys, registry, registry_record,
    registry_records, reported_state, scp_list, some_extended, three_bytes, unwrapped_objects,
    values_of, version_at, KeySlot,
};
use crate::tlv::{
    all_objects, encoding, law_card_tags_are_identifiers, tlv_objects, TlvError, TlvObject,
};

verus! {

// ---- Looking up objects ----------------------------------------------------

/// `value` is that of the first object with `tag`.
pub open spec fn is_first(objects: Seq<TlvObject>, tag: u32, i: int) -> bool {
    &&& 0 <= i < objects.len()
    &&& objects[i].tag == tag
    &&& forall|j: int| 0 <= j < i ==> (#[trigger] objects[j]).tag != tag
}

/// No object has `tag`.
pub open spec fn is_absent(objects: Seq<TlvObject>, tag: u32) -> bool {
    forall|j: int| 0 <= j < objects.len() ==> (#[trigger] objects[j]).tag != tag
}

/// What is looked up by a tag is the value of the first object that has it.
pub proof fn law_first_object_is_found(objects: Seq<TlvObject>, tag: u32, i: int)
    ensures
        is_first(objects, tag, i) ==> first_value(objects, tag) == Some(objects[i].value),
        is_absent(objects, tag) ==> first_value(objects, tag) is None,
    decreases objects.len(),
{
    if objects.len() > 0 && objects[0].tag != tag {
        let rest = objects.skip(1);
        if is_first(objects, tag, i) {
            assert(is_first(rest, tag, i - 1)) by {
                assert forall|j: int| 0 <= j < i - 1 implies (#[trigger] rest[j]).tag != tag by {
                    assert(objects[j + 1].tag != tag);
                }
            }
        }
        if is_absent(objects, tag) {
            assert(is_absent(rest, tag)) by {
                assert forall|j: int| 0 <= j < rest.len() implies (#[trigger] rest[j]).tag
                    != tag by {
                    assert(objects[j + 1].tag != tag);
                }
            }
        }
        law_first_object_is_found(rest, tag, i - 1);
    } else if objects.len() > 0 {
        if is_first(objects, tag, i) && i > 0 {
            assert(objects[0].tag != tag);
        }
    }
}

/// All values with a tag, in the order of the objects.
pub proof fn law_values_in_order(objects: Seq<TlvObject>, tag: u32)
    ensures
        values_of(objects, tag) == objects.filter(|o: TlvObject| o.tag == tag).map_values(
            |o: TlvObject| o.value,
        ),
    decreases objects.len(),
{
    reveal(Seq::filter);
    let p = |o: TlvObject| o.tag == tag;
    if objects.len() > 0 {
        law_values_in_order(objects.drop_last(), tag);
        let init = objects.drop_last().filter(p);
        if objects.last().tag == tag {
            assert(objects.filter(p) =~= init.push(objects.last()));
        }
    }
    assert(values_of(objects, tag) =~= objects.filter(p).map_values(|o: TlvObject| o.value));
}

// ---- Keys ------------------------------------------------------------------

/// The key type byte of each type.
pub proof fn law_key_types(byte: u8)
    ensures
        byte == 0x80 <==> key_type_of(byte) is Des,
        byte == 0x88 <==> key_type_of(byte) is Aes,
        byte == 0xA1 <==> key_type_of(byte) is RsaPublic,
        byte == 0xA2 <==> key_type_of(byte) is RsaPrivateCrt,
        byte == 0xA3 <==> key_type_of(byte) is RsaPrivateExponent,
        byte == 0xB0 <==> key_type_of(byte) is EccPublic,
        byte == 0xB1 <==> key_type_of(byte) is EccPrivate,
        byte == 0xB2 <==> key_type_of(byte) is EccParametersRef,
        key_type_of(byte) matches KeyType::Other(b) ==> b == byte,
{
}

/// An entry of the key information: the first octet is the identifier and the second the
/// version of every key in it; then come a type and a length for each. An entry whose
/// third octet is `B9` says no more of its one key.
pub proof fn law_key_entry(value: Seq<u8>, i: int)
    ensures
        value.len() < 2 ==> entry_keys(value).len() == 0,
        value.len() >= 3 && value[2] == 0xB9 ==> {
            let keys = entry_keys(value);
            &&& keys.len() == 1
            &&& keys[0].key.kid == value[0]
            &&& keys[0].kvn == value[1]
            &&& keys[0].key.key_type == KeyType::Other(0xB9)
            &&& keys[0].key.key_length == 0
        },
        value.len() >= 2 && !(value.len() >= 3 && value[2] == 0xB9) ==> {
            let keys = entry_keys(value);
            &&& keys.len() == (value.len() - 2) / 2
            &&& 0 <= i < keys.len() ==> {
                &&& keys[i].key.kid == value[0]
                &&& keys[i].kvn == value[1]
                &&& keys[i].key.key_type == key_type_of(value[2 + 2 * i])
                &&& keys[i].key.key_length == value[3 + 2 * i]
            }
        },
{
}

/// One key as a card writes it: identifier, version, type and length.
pub struct WrittenKey {
    pub kid: u8,
    pub kvn: u8,
    pub kind: u8,
    pub length: u8,
}

/// One entry of the key information (`C0`) for each key.
pub open spec fn key_entries(keys: Seq<WrittenKey>) -> Seq<TlvObject> {
    Seq::new(
        keys.len(),
        |i: int|
            TlvObject {
                tag: 0xC0,
                value: seq![keys[i].kid, keys[i].kvn, keys[i].kind, keys[i].length],
            },
    )
}

/// A key information template (`E0`) with these keys.
pub open spec fn key_template(keys: Seq<WrittenKey>) -> Seq<u8> {
    encoding(seq![TlvObject { tag: 0xE0, value: encoding(key_entries(keys)) }])
}

/// Every key of a template comes out with its identifier, version, type and length, in
/// its order, and in the set of its version.
pub proof fn law_keys_come_back(keys: Seq<WrittenKey>, sets: Seq<KeysetView>, n: int)
    requires
        keys.len() <= MAX_TLVS,
        encoding(key_entries(keys)).len() <= usize::MAX,
        forall|i: int| 0 <= i < keys.len() ==> (#[trigger] keys[i]).kind != 0xB9,
        key_information(key_template(keys)) == Ok::<
            (KeyTemplateFormat, Seq<KeysetView>),
            TlvError,
        >((KeyTemplateFormat::Basic, sets)),
        0 <= n < sets.len(),
    ensures
        sets[n].keys == keys.filter(|k: WrittenKey| k.kvn == sets[n].kvn).map_values(
            |k: WrittenKey|
                KeyInfo { kid: k.kid, key_type: key_type_of(k.kind), key_length: k.length },
        ),
        sets[n].keys.len() > 0,
        forall|m: int| 0 <= m < sets.len() && m != n ==> (#[trigger] sets[m]).kvn != sets[n].kvn,
{
    lemma_template(keys);
    let slots = slots_of(keys);
    law_keysets_group_by_version(slots);
    assert(grouped(slots) == Ok::<Seq<KeysetView>, TlvError>(sets));
    lemma_version(keys, sets[n].kvn);
    assert forall|m: int| 0 <= m < sets.len() && m != n implies (#[trigger] sets[m]).kvn
        != sets[n].kvn by {
        if m < n {
            assert(sets[m].kvn != sets[n].kvn);
        } else {
            assert(sets[n].kvn != sets[m].kvn);
        }
    }
}

/// Every version that a key of a template has is listed, unless there are more keys than
/// a set, or more versions than a card, may have. Such a template is always read.
pub proof fn law_no_key_is_lost(keys: Seq<WrittenKey>, i: int)
    requires
        keys.len() <= MAX_TLVS,
        keys.len() <= MAX_KEYSETS,
        keys.len() <= MAX_KEYS_PER_SET,
        encoding(key_entries(keys)).len() <= usize::MAX,
        forall|i: int| 0 <= i < keys.len() ==> (#[trigger] keys[i]).kind != 0xB9,
        0 <= i < keys.len(),
    ensures
        key_information(key_template(keys)) matches Ok((format, sets)) && {
            &&& format is Basic
            &&& exists|n: int| 0 <= n < sets.len() && (#[trigger] sets[n]).kvn == keys[i].kvn
        },
{
    lemma_template(keys);
    lemma_grouped(slots_of(keys));
    let slots = slots_of(keys);
    law_keysets_group_by_version(slots);
    let sets = grouped(slots)->Ok_0;
    lemma_version(keys, keys[i].kvn);
    lemma_has_version(slots, i);
    assert(slots[i].kvn == keys[i].kvn);
    assert(keys_of_version(slots, keys[i].kvn).len() > 0);
    assert(version_at(sets, keys[i].kvn) is Some);
    let n = version_at(sets, keys[i].kvn)->Some_0;
    assert(0 <= n < sets.len() && sets[n].kvn == keys[i].kvn);
    assert(key_information(key_template(keys)) == Ok::<
        (KeyTemplateFormat, Seq<KeysetView>),
        TlvError,
    >((KeyTemplateFormat::Basic, sets)));
    assert(key_information(key_template(keys))->Ok_0.1[n].kvn == keys[i].kvn);
}

spec fn slots_of(keys: Seq<WrittenKey>) -> Seq<KeySlot> {
    keys.map_values(
        |k: WrittenKey|
            KeySlot {
                kvn: k.kvn,
                key: KeyInfo { kid: k.kid, key_type: key_type_of(k.kind), key_length: k.length },
            },
    )
}

proof fn lemma_has_version(slots: Seq<KeySlot>, i: int)
    requires
        0 <= i < slots.len(),
    ensures
        keys_of_version(slots, slots[i].kvn).len() > 0,
    decreases slots.len(),
{
    if i < slots.len() - 1 {
        assert(slots.drop_last()[i] == slots[i]);
        lemma_has_version(slots.drop_last(), i);
    }
}

proof fn lemma_grouped(slots: Seq<KeySlot>)
    requires
        slots.len() <= MAX_KEYSETS,
        slots.len() <= MAX_KEYS_PER_SET,
    ensures
        grouped(slots) matches Ok(sets) && {
            &&& sets.len() <= slots.len()
            &&& forall|n: int|
                0 <= n < sets.len() ==> (#[trigger] sets[n]).keys.len() <= slots.len()
        },
    decreases slots.len(),
{
    if slots.len() > 0 {
        lemma_grouped(slots.drop_last());
        let sets = grouped(slots.drop_last())->Ok_0;
        if let Some(at) = version_at(sets, slots.last().kvn) {
            assert(sets[at].keys.len() <= slots.drop_last().len());
        }
    }
}

proof fn lemma_version(keys: Seq<WrittenKey>, kvn: u8)
    ensures
        keys_of_version(slots_of(keys), kvn) == keys.filter(
            |k: WrittenKey| k.kvn == kvn,
        ).map_values(
            |k: WrittenKey|
                KeyInfo { kid: k.kid, key_type: key_type_of(k.kind), key_length: k.length },
        ),
    decreases keys.len(),
{
    reveal(Seq::filter);
    let p = |k: WrittenKey| k.kvn == kvn;
    let info = |k: WrittenKey|
        KeyInfo { kid: k.kid, key_type: key_type_of(k.kind), key_length: k.length };
    if keys.len() > 0 {
        lemma_version(keys.drop_last(), kvn);
        assert(slots_of(keys).drop_last() =~= slots_of(keys.drop_last()));
        let init = keys.drop_last().filter(p);
        if keys.last().kvn == kvn {
            assert(keys.filter(p) =~= init.push(keys.last()));
        }
    }
    assert(keys_of_version(slots_of(keys), kvn) =~= keys.filter(p).map_values(info));
}

proof fn lemma_template(keys: Seq<WrittenKey>)
    requires
        keys.len() <= MAX_TLVS,
        encoding(key_entries(keys)).len() <= usize::MAX,
        forall|i: int| 0 <= i < keys.len() ==> (#[trigger] keys[i]).kind != 0xB9,
    ensures
        key_template(keys).len() > 0,
        unwrapped_objects(key_template(keys), 0xE0) == Ok::<Seq<TlvObject>, TlvError>(
            key_entries(keys),
        ),
        listed_keys(key_entries(keys)) == slots_of(keys),
        !some_extended(key_entries(keys)),
{
    let entries = key_entries(keys);
    assert(0xC0u8 & 0x1F != 0x1F) by (bit_vector);
    assert(0xE0u8 & 0x1F != 0x1F) by (bit_vector);
    law_card_tags_are_identifiers(0xC0);
    law_card_tags_are_identifiers(0xE0);
    law_all_objects_come_back(entries);
    let outer = seq![TlvObject { tag: 0xE0, value: encoding(entries) }];
    law_all_objects_come_back(outer);
    assert(key_template(keys).len() > 0) by {
        if key_template(keys).len() == 0 {
            assert(tlv_objects(key_template(keys))->Ok_0.len() == 0);
        }
    }
    law_first_object_is_found(outer, 0xE0, 0);
    assert(is_first(outer, 0xE0, 0));
    lemma_listed(keys);
}

proof fn lemma_listed(keys: Seq<WrittenKey>)
    requires
        forall|i: int| 0 <= i < keys.len() ==> (#[trigger] keys[i]).kind != 0xB9,
    ensures
        listed_keys(key_entries(keys)) == slots_of(keys),
        !some_extended(key_entries(keys)),
    decreases keys.len(),
{
    let entries = key_entries(keys);
    if keys.len() > 0 {
        let init = keys.drop_last();
        assert forall|i: int| 0 <= i < init.len() implies (#[trigger] init[i]).kind != 0xB9 by {
            assert(keys[i].kind != 0xB9);
        }
        lemma_listed(init);
        assert(entries.drop_last() =~= key_entries(init));
        let k = keys.last();
        assert(keys[keys.len() - 1].kind != 0xB9);
        let value = seq![k.kid, k.kvn, k.kind, k.length];
        assert(entries.last().value == value);
        law_key_entry(value, 0);
        assert(entry_keys(value) =~= seq![entry_keys(value)[0]]);
        assert(listed_keys(entries) =~= slots_of(keys));
    } else {
        assert(listed_keys(entries) =~= slots_of(keys));
    }
    assert forall|i: int| 0 <= i < entries.len() implies !entry_is_extended(
        (#[trigger] entries[i]).value,
    ) by {
        assert(keys[i].kind != 0xB9);
    }
}

/// A template is in the extended format exactly where one of its entries (`C0`) has `B9`
/// in its third octet.
pub proof fn law_extended_format(s: Seq<u8>, entries: Seq<TlvObject>)
    requires
        s.len() > 0,
        unwrapped_objects(s, 0xE0) == Ok::<Seq<TlvObject>, TlvError>(entries),
        key_information(s) is Ok,
    ensures
        key_information(s)->Ok_0.0 is Extended <==> exists|i: int|
            0 <= i < entries.len() && (#[trigger] entries[i]).tag == 0xC0 && entries[i].value.len()
                >= 3 && entries[i].value[2] == 0xB9,
{
}

// ---- Channels --------------------------------------------------------------

/// A protocol as a card writes it in its recognition data: an object identifier that ends
/// in the protocol's number and its option byte.
pub struct WrittenChannel {
    pub prefix: Seq<u8>,
    pub scp: u8,
    pub option: u8,
}

/// One entry (`64`) for each protocol, with its object identifier (`06`).
pub open spec fn channel_entries(channels: Seq<WrittenChannel>) -> Seq<TlvObject> {
    Seq::new(
        channels.len(),
        |i: int|
            TlvObject {
                tag: 0x64,
                value: encoding(
                    seq![
                        TlvObject {
                            tag: 0x06,
                            value: channels[i].prefix.push(channels[i].scp).push(
                                channels[i].option,
                            ),
                        },
                    ],
                ),
            },
    )
}

/// Card recognition data (`66`) with a body (`73`) of these protocols.
pub open spec fn channel_data(channels: Seq<WrittenChannel>) -> Seq<u8> {
    encoding(
        seq![
            TlvObject {
                tag: 0x66,
                value: encoding(
                    seq![TlvObject { tag: 0x73, value: encoding(channel_entries(channels)) }],
                ),
            },
        ],
    )
}

/// The protocols that the library knows, each with its option byte.
pub open spec fn known_channels(channels: Seq<WrittenChannel>) -> Seq<ScpVariant>
    decreases channels.len(),
{
    if channels.len() == 0 {
        Seq::empty()
    } else {
        let rest = known_channels(channels.skip(1));
        if channels[0].scp == 2 {
            seq![ScpVariant::Scp02 { i_param: channels[0].option }] + rest
        } else if channels[0].scp == 3 {
            seq![ScpVariant::Scp03 { i_param: channels[0].option }] + rest
        } else {
            rest
        }
    }
}

/// Protocols that a card can write.
pub open spec fn channels_fit(channels: Seq<WrittenChannel>) -> bool {
    &&& channels.len() <= MAX_TLVS
    &&& forall|i: int| 0 <= i < channels.len() ==> (#[trigger] channels[i]).prefix.len() <= 64
    &&& forall|i: int|
        0 <= i < channels.len() ==> (#[trigger] channel_entries(channels)[i]).value.len()
            <= usize::MAX
    &&& encoding(channel_entries(channels)).len() <= usize::MAX
    &&& encoding(
        seq![TlvObject { tag: 0x73, value: encoding(channel_entries(channels)) }],
    ).len() <= usize::MAX
}

/// The protocols 2 and 3 of card recognition data come out in their order, each with its
/// option byte; any other protocol is left out.
pub proof fn law_channels_come_back(channels: Seq<WrittenChannel>)
    requires
        channels_fit(channels),
        channels.len() <= MAX_SCP_VARIANTS,
    ensures
        card_recognition(channel_data(channels)) == Ok::<Seq<ScpVariant>, TlvError>(
            known_channels(channels),
        ),
{
    let entries = channel_entries(channels);
    assert(0x64u8 & 0x1F != 0x1F && 0x06u8 & 0x1F != 0x1F && 0x66u8 & 0x1F != 0x1F && 0x73u8 & 0x1F
        != 0x1F) by (bit_vector);
    law_card_tags_are_identifiers(0x64);
    law_card_tags_are_identifiers(0x06);
    law_card_tags_are_identifiers(0x66);
    law_card_tags_are_identifiers(0x73);
    law_all_objects_come_back(entries);
    let body = seq![TlvObject { tag: 0x73, value: encoding(entries) }];
    law_all_objects_come_back(body);
    let outer = seq![TlvObject { tag: 0x66, value: encoding(body) }];
    law_all_objects_come_back(outer);
    assert(channel_data(channels) == encoding(outer));
    assert(channel_data(channels).len() > 0) by {
        if channel_data(channels).len() == 0 {
            assert(tlv_objects(channel_data(channels))->Ok_0.len() == 0);
        }
    }
    assert(is_first(outer, 0x66, 0));
    law_first_object_is_found(outer, 0x66, 0);
    assert(is_first(body, 0x73, 0));
    law_first_object_is_found(body, 0x73, 0);
    lemma_channels(channels, 0);
}

proof fn lemma_channels(channels: Seq<WrittenChannel>, seen: nat)
    requires
        forall|i: int| 0 <= i < channels.len() ==> (#[trigger] channels[i]).prefix.len() <= 64,
        seen + channels.len() <= MAX_SCP_VARIANTS,
    ensures
        scp_list(channel_entries(channels), seen) == Ok::<Seq<ScpVariant>, TlvError>(
            known_channels(channels),
        ),
    decreases channels.len(),
{
    if channels.len() > 0 {
        let c = channels[0];
        let entries = channel_entries(channels);
        let rest = channels.skip(1);
        assert(entries.skip(1) =~= channel_entries(rest));
        assert forall|i: int| 0 <= i < rest.len() implies (#[trigger] rest[i]).prefix.len()
            <= 64 by {
            assert(channels[i + 1].prefix.len() <= 64);
        }
        lemma_channels(rest, seen);
        if c.scp == 2 || c.scp == 3 {
            lemma_channels(rest, seen + 1);
        }
        let oid = c.prefix.push(c.scp).push(c.option);
        let inner = seq![TlvObject { tag: 0x06, value: oid }];
        assert(0x06u8 & 0x1F != 0x1F) by (bit_vector);
        law_card_tags_are_identifiers(0x06);
        assert(oid.len() <= 66);
        law_all_objects_come_back(inner);
        assert(is_first(inner, 0x06, 0));
        law_first_object_is_found(inner, 0x06, 0);
        assert(entries[0].value == encoding(inner));
    }
}

// ---- Capabilities ----------------------------------------------------------

/// Card capability information: the number of channels is the first octet under `A0`, and
/// the privileges are what stands under `A3`. One channel and no privileges where the
/// card does not say.
pub proof fn law_capabilities(objects: Seq<TlvObject>, i: int, j: int)
    ensures
        is_absent(objects, 0xA0) ==> capability_fields(objects).0 == 1,
        is_first(objects, 0xA0, i) ==> capability_fields(objects).0 == (if objects[i].value.len()
            > 0 {
            objects[i].value[0]
        } else {
            1
        }),
        is_absent(objects, 0xA3) ==> capability_fields(objects).1.len() == 0,
        is_first(objects, 0xA3, j) && objects[j].value.len() <= MAX_PRIVILEGE_BYTES
            ==> capability_fields(objects).1 == objects[j].value,
        is_first(objects, 0xA3, j) && objects[j].value.len() > MAX_PRIVILEGE_BYTES
            ==> capability_fields(objects).1 == objects[j].value.take(MAX_PRIVILEGE_BYTES as int),
{
    law_first_object_is_found(objects, 0xA0, i);
    law_first_object_is_found(objects, 0xA3, j);
}

/// The objects of card capability information, with or without its outer tag (`67`).
pub proof fn law_capabilities_with_or_without_tag(s: Seq<u8>, top: Seq<TlvObject>, i: int)
    requires
        s.len() > 0,
        tlv_objects(s) == Ok::<Seq<TlvObject>, TlvError>(top),
    ensures
        is_absent(top, 0x67) ==> card_capabilities(s) == Ok::<(u8, Seq<u8>), TlvError>(
            capability_fields(top),
        ),
        is_first(top, 0x67, i) ==> match tlv_objects(top[i].value) {
            Ok(inner) => card_capabilities(s) == Ok::<(u8, Seq<u8>), TlvError>(
                capability_fields(inner),
            ),
            Err(e) => card_capabilities(s) is Err,
        },
{
    law_first_object_is_found(top, 0x67, i);
}

// ---- Registry --------------------------------------------------------------

/// The byte of each life cycle state.
pub proof fn law_life_cycle_bytes(byte: u8)
    ensures
        byte == 0x01 <==> life_cycle_of(byte) is OpReady,
        byte == 0x07 <==> life_cycle_of(byte) is Initialized,
        byte == 0x0F <==> life_cycle_of(byte) is Secured,
        byte == 0x7F <==> life_cycle_of(byte) is CardLocked,
        byte == 0xFF <==> life_cycle_of(byte) is Terminated,
        life_cycle_of(byte) matches CardLifeCycle::Unknown(b) ==> b == byte,
{
}

/// Privileges of a registry entry have three octets: those that are there, and zeros.
pub proof fn law_three_privileges(value: Seq<u8>, i: int)
    requires
        0 <= i < 3,
    ensures
        three_bytes(Some(value)).len() == 3,
        three_bytes(Some(value))[i] == (if i < value.len() {
            value[i]
        } else {
            0
        }),
        three_bytes(None).len() == 3,
        three_bytes(None)[i] == 0,
{
}

/// What a registry entry says: its identifier under `4F`, its state in the first octet
/// under `9F70`, its privileges under `C5`, its security domain under `CC`, its load file
/// under `C4`, and a module under each `84`; of each tag but the last the first one
/// counts.
pub proof fn law_registry_entry(
    fields: Seq<TlvObject>,
    aid: int,
    state: int,
    privileges: int,
    domain: int,
    load_file: int,
)
    ensures
        ({
            let r = registry_record(fields);
            let modules = fields.filter(|o: TlvObject| o.tag == 0x84).map_values(
                |o: TlvObject| o.value,
            );
            &&& is_first(fields, 0x4F, aid) ==> r.aid == fields[aid].value
            &&& is_absent(fields, 0x4F) ==> r.aid.len() == 0
            &&& is_first(fields, 0x9F70, state) ==> r.life_cycle == (if fields[state].value.len()
                > 0 {
                fields[state].value[0]
            } else {
                0
            })
            &&& is_absent(fields, 0x9F70) ==> r.life_cycle == 0
            &&& is_first(fields, 0xC5, privileges) ==> r.privileges == three_bytes(
                Some(fields[privileges].value),
            )
            &&& is_absent(fields, 0xC5) ==> r.privileges == three_bytes(None)
            &&& is_first(fields, 0xCC, domain) ==> r.associated_sd_aid == Some(
                fields[domain].value,
            )
            &&& is_absent(fields, 0xCC) ==> r.associated_sd_aid is None
            &&& is_first(fields, 0xC4, load_file) ==> r.elf_aid == Some(fields[load_file].value)
            &&& is_absent(fields, 0xC4) ==> r.elf_aid is None
            &&& r.more_modules == (modules.len() > MAX_MODULES_PER_ELF)
            &&& !r.more_modules ==> r.modules == modules
            &&& r.more_modules ==> r.modules == modules.take(MAX_MODULES_PER_ELF as int)
        }),
{
    law_first_object_is_found(fields, 0x4F, aid);
    law_first_object_is_found(fields, 0x9F70, state);
    law_first_object_is_found(fields, 0xC5, privileges);
    law_first_object_is_found(fields, 0xCC, domain);
    law_first_object_is_found(fields, 0xC4, load_file);
    law_values_in_order(fields, 0x84);
}

/// The registry entries of an answer are its objects `E3`, in their order; a broken one
/// breaks the answer.
pub proof fn law_registry_entries_in_order(objects: Seq<TlvObject>, k: int)
    ensures
        ({
            let entries = objects.filter(|o: TlvObject| o.tag == 0xE3);
            match registry_records(objects) {
                Ok(records) => {
                    &&& records.len() == entries.len()
                    &&& 0 <= k < entries.len() ==> all_objects(entries[k].value) is Ok && records[k]
                        == registry_record(all_objects(entries[k].value)->Ok_0)
                },
                Err(_) => exists|j: int|
                    0 <= j < entries.len() && all_objects((#[trigger] entries[j]).value) is Err,
            }
        }),
    decreases objects.len(),
{
    let p = |o: TlvObject| o.tag == 0xE3;
    if objects.len() > 0 {
        let rest = objects.skip(1);
        let entries = objects.filter(p);
        let others = rest.filter(p);
        assert(objects =~= seq![objects[0]] + rest);
        lemma_filter_first(objects, p);
        if objects[0].tag == 0xE3 {
            assert(entries[0] == objects[0]);
            law_registry_entries_in_order(rest, k - 1);
            if k >= 1 && k < entries.len() {
                assert(entries[k] == others[k - 1]);
            }
            if all_objects(objects[0].value) is Ok && registry_records(rest) is Err {
                let j = choose|j: int|
                    0 <= j < others.len() && all_objects((#[trigger] others[j]).value) is Err;
                assert(entries[j + 1] == others[j]);
            }
        } else {
            law_registry_entries_in_order(rest, k);
        }
    } else {
        reveal(Seq::filter);
    }
}

proof fn lemma_filter_first(objects: Seq<TlvObject>, p: spec_fn(TlvObject) -> bool)
    requires
        objects.len() > 0,
    ensures
        p(objects[0]) ==> objects.filter(p) == seq![objects[0]] + objects.skip(1).filter(p),
        !p(objects[0]) ==> objects.filter(p) == objects.skip(1).filter(p),
    decreases objects.len(),
{
    reveal(Seq::filter);
    let rest = objects.skip(1);
    if objects.len() == 1 {
        assert(objects.drop_last() =~= Seq::empty());
        assert(rest =~= Seq::empty());
        assert(Seq::<TlvObject>::empty().filter(p) =~= Seq::empty());
        if p(objects[0]) {
            assert(objects.filter(p) =~= seq![objects[0]] + rest.filter(p));
        }
    } else {
        lemma_filter_first(objects.drop_last(), p);
        assert(objects.drop_last().skip(1) =~= rest.drop_last());
        assert(rest.last() == objects.last());
        if p(objects[0]) {
            assert(objects.filter(p) =~= seq![objects[0]] + rest.filter(p));
        } else {
            assert(objects.filter(p) =~= rest.filter(p));
        }
    }
}

/// Of the entries of an answer as many are kept as there is room for, from the first on.
pub proof fn law_registry_keeps_the_first(s: Seq<u8>, objects: Seq<TlvObject>)
    requires
        all_objects(s) == Ok::<Seq<TlvObject>, TlvError>(objects),
    ensures
        match registry_records(objects) {
            Ok(records) => registry(s) matches Ok(kept) && kept.len() <= MAX_REGISTRY_ENTRIES
                && kept.is_prefix_of(records) && (kept.len() < MAX_REGISTRY_ENTRIES ==> kept
                == records),
            Err(_) => registry(s) is Err,
        },
{
}

/// The card's state is the first octet under `9F70` of the first entry (`E3`).
pub proof fn law_reported_state(
    s: Seq<u8>,
    top: Seq<TlvObject>,
    i: int,
    fields: Seq<TlvObject>,
    j: int,
)
    requires
        s.len() > 0,
        tlv_objects(s) == Ok::<Seq<TlvObject>, TlvError>(top),
        is_first(top, 0xE3, i),
        tlv_objects(top[i].value) == Ok::<Seq<TlvObject>, TlvError>(fields),
    ensures
        is_first(fields, 0x9F70, j) && fields[j].value.len() > 0 ==> reported_state(s) == Ok::<
            Option<CardLifeCycle>,
            TlvError,
        >(Some(life_cycle_of(fields[j].value[0]))),
        is_absent(fields, 0x9F70) ==> reported_state(s) == Ok::<Option<CardLifeCycle>, TlvError>(
            None,
        ),
{
    law_first_object_is_found(top, 0xE3, i);
    law_first_object_is_found(fields, 0x9F70, j);
}

/// An answer that is there and is not made of whole objects is refused; one that is not
/// there says nothing.
pub proof fn law_broken_answers_are_refused(s: Seq<u8>)
    ensures
        s.len() > 0 && tlv_objects(s) is Err ==> {
            &&& card_recognition(s) is Err
            &&& key_information(s) is Err
            &&& card_capabilities(s) is Err
            &&& reported_state(s) is Err
        },
        s.len() == 0 ==> {
            &&& card_recognition(s) is Ok && card_recognition(s)->Ok_0.len() == 0
            &&& key_information(s) is Ok && key_information(s)->Ok_0.1.len() == 0
            &&& card_capabilities(s) is Ok && card_capabilities(s)->Ok_0.0 == 1
            &&& reported_state(s) is Ok && reported_state(s)->Ok_0 is None
        },
{
}

} // verus!
