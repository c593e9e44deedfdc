//! Decoding of what cards answer (GPCS v2.3.1 §11 and Appendix H).
use vstd::prelude::*;

use crate::lifecycle::life_cycle_byte;
use crate::limits::{
    GETDATA_RAW_MAX, MAX_KEYSETS, MAX_KEYS_PER_SET, MAX_MODULES_PER_ELF, MAX_PRIVILEGE_BYTES,
    MAX_REGISTRY_ENTRIES, MAX_SCP_VARIANTS, MAX_TLVS,
};
use crate::model::{
    keyset_views, CardCapabilities, KeyInfo, KeyTemplateFormat, KeyType, Keyset, KeysetView,
    ScpVariant,
};
use crate::report::CardLifeCycle;
use crate::tlv::{self, all_objects, prepend, tlv_objects, tlv_views, Tlv, TlvError, TlvObject};

verus! {

/// Card recognition data.
pub const TAG_CRD: u32 = 0x66;

/// The objects of the card recognition data.
pub const TAG_CRD_BODY: u32 = 0x73;

/// A secure channel protocol with its options.
pub const TAG_SCP_ENTRY: u32 = 0x64;

/// An object identifier.
pub const TAG_OID: u32 = 0x06;

/// Key information template.
pub const TAG_KEY_TEMPLATE: u32 = 0xE0;

/// One entry of the key information template.
pub const TAG_KEY_ENTRY: u32 = 0xC0;

/// Marks an entry in the extended format.
pub const KEY_EXTENDED_MARKER: u8 = 0xB9;

/// Card capability information.
pub const TAG_CCI: u32 = 0x67;

/// Number of logical channels.
pub const TAG_CCI_CHANNELS: u32 = 0xA0;

/// Supported privileges.
pub const TAG_CCI_PRIVILEGES: u32 = 0xA3;

/// One registry entry.
pub const TAG_GP_REGISTRY: u32 = 0xE3;

/// Life cycle state.
pub const TAG_LIFE_CYCLE: u32 = 0x9F70;

/// Identifier of the entry.
pub const TAG_AID: u32 = 0x4F;

/// Privileges of the entry.
pub const TAG_PRIVILEGES: u32 = 0xC5;

/// Associated security domain.
pub const TAG_ASSOC_SD_AID: u32 = 0xCC;

/// Load file of an application.
pub const TAG_ELF_AID: u32 = 0xC4;

/// Module of a load file.
pub const TAG_MODULE_AID: u32 = 0x84;

// ---- Looking up objects ----------------------------------------------------

/// The value of the first object with `tag`.
pub open spec fn first_value(objects: Seq<TlvObject>, tag: u32) -> Option<Seq<u8>>
    decreases objects.len(),
{
    if objects.len() == 0 {
        None
    } else if objects[0].tag == tag {
        Some(objects[0].value)
    } else {
        first_value(objects.skip(1), tag)
    }
}

/// The content of an optional slice.
pub open spec fn opt_bytes(v: Option<&[u8]>) -> Option<Seq<u8>> {
    match v {
        Some(bytes) => Some(bytes@),
        None => None,
    }
}

/// The value of the first object with `tag`, borrowed from the parsed input.
pub(crate) fn find<'a>(tlvs: &Vec<Tlv<'a>>, tag: u32) -> (r: Option<&'a [u8]>)
    ensures
        opt_bytes(r) == first_value(tlv_views(tlvs@), tag),
{
    let mut i: usize = 0;
    assert(tlv_views(tlvs@).skip(0) =~= tlv_views(tlvs@));
    while i < tlvs.len()
        invariant
            i <= tlvs@.len(),
            first_value(tlv_views(tlvs@), tag) == first_value(tlv_views(tlvs@).skip(i as int), tag),
        decreases tlvs@.len() - i,
    {
        let item: Tlv<'a> = tlvs[i];
        if item.tag == tag {
            return Some(item.value);
        }
        assert(tlv_views(tlvs@).skip(i as int).skip(1) =~= tlv_views(tlvs@).skip(i + 1));
        i = i + 1;
    }
    None
}

/// The objects inside the first object with `tag`, where there is one, and the
/// objects of `s` itself where there is none.
pub open spec fn unwrapped_objects(s: Seq<u8>, tag: u32) -> Result<Seq<TlvObject>, TlvError> {
    match tlv_objects(s) {
        Err(e) => Err(e),
        Ok(top) => match first_value(top, tag) {
            Some(inner) => tlv_objects(inner),
            None => Ok(top),
        },
    }
}

// ---- Card recognition data -------------------------------------------------

/// The secure channels that a card advertises, in its order.
#[derive(Debug, Clone, PartialEq, Eq)]
pub struct CardRecognition {
    pub scp: Vec<ScpVariant>,
}

impl Default for CardRecognition {
    /// No secure channel is advertised.
    fn default() -> (r: CardRecognition)
        ensures
            r.scp@ == Seq::<ScpVariant>::empty(),
    {
        CardRecognition { scp: Vec::new() }
    }
}

/// A protocol that the library knows.
pub open spec fn scp_of(scp_id: u8, i_param: u8) -> Option<ScpVariant> {
    if scp_id == 0x02 {
        Some(ScpVariant::Scp02 { i_param })
    } else if scp_id == 0x03 {
        Some(ScpVariant::Scp03 { i_param })
    } else {
        None
    }
}

/// The protocol that one entry names: the last two octets of its object
/// identifier.
pub open spec fn entry_scp(value: Seq<u8>) -> Result<Option<ScpVariant>, TlvError> {
    match tlv_objects(value) {
        Err(e) => Err(e),
        Ok(objects) => match first_value(objects, TAG_OID) {
            Some(oid) => if oid.len() >= 2 {
                Ok(scp_of(oid[oid.len() - 2], oid[oid.len() - 1]))
            } else {
                Ok(None)
            },
            None => Ok(None),
        },
    }
}

/// The protocols that the entries name, where `seen` came before them.
pub open spec fn scp_list(entries: Seq<TlvObject>, seen: nat) -> Result<Seq<ScpVariant>, TlvError>
    decreases entries.len(),
{
    if entries.len() == 0 {
        Ok(Seq::empty())
    } else if entries[0].tag != TAG_SCP_ENTRY {
        scp_list(entries.skip(1), seen)
    } else {
        match entry_scp(entries[0].value) {
            Err(e) => Err(e),
            Ok(None) => scp_list(entries.skip(1), seen),
            Ok(Some(v)) => if seen >= MAX_SCP_VARIANTS {
                Err(TlvError::TooMany)
            } else {
                prepend(seq![v], scp_list(entries.skip(1), seen + 1))
            },
        }
    }
}

/// The body of card recognition data, which some cards send without its outer
/// tag.
pub open spec fn crd_body(s: Seq<u8>) -> Result<Option<Seq<u8>>, TlvError> {
    match unwrapped_objects(s, TAG_CRD) {
        Err(e) => Err(e),
        Ok(objects) => Ok(first_value(objects, TAG_CRD_BODY)),
    }
}

/// What card recognition data says.
pub open spec fn card_recognition(s: Seq<u8>) -> Result<Seq<ScpVariant>, TlvError> {
    if s.len() == 0 {
        Ok(Seq::empty())
    } else {
        match crd_body(s) {
            Err(e) => Err(e),
            Ok(None) => Ok(Seq::empty()),
            Ok(Some(body)) => match tlv_objects(body) {
                Err(e) => Err(e),
                Ok(entries) => scp_list(entries, 0),
            },
        }
    }
}

/// The outcome of [`parse_card_recognition`].
pub open spec fn recognized(r: Result<CardRecognition, TlvError>) -> Result<
    Seq<ScpVariant>,
    TlvError,
> {
    match r {
        Ok(c) => Ok(c.scp@),
        Err(e) => Err(e),
    }
}

/// Maps a protocol number and its option byte.
fn scp_variant(scp_id: u8, i_param: u8) -> (r: Option<ScpVariant>)
    ensures
        r == scp_of(scp_id, i_param),
{
    match scp_id {
        0x02 => Some(ScpVariant::Scp02 { i_param }),
        0x03 => Some(ScpVariant::Scp03 { i_param }),
        _ => None,
    }
}

/// Reads one protocol entry.
fn read_scp_entry(value: &[u8]) -> (r: Result<Option<ScpVariant>, TlvError>)
    ensures
        r == entry_scp(value@),
{
    let objects: Vec<Tlv<'_>> = tlv::parse(value)?;
    match find(&objects, TAG_OID) {
        Some(oid) => {
            if oid.len() >= 2 {
                Ok(scp_variant(oid[oid.len() - 2], oid[oid.len() - 1]))
            } else {
                Ok(None)
            }
        },
        None => Ok(None),
    }
}

/// Reads card recognition data: every protocol that the library knows, in the
/// card's order. Other protocols are left out.
pub fn parse_card_recognition(data: &[u8]) -> (r: Result<CardRecognition, TlvError>)
    ensures
        recognized(r) == card_recognition(data@),
        r matches Ok(c) ==> c.scp@.len() <= MAX_SCP_VARIANTS,
{
    let mut scp: Vec<ScpVariant> = Vec::new();
    if data.len() == 0 {
        assert(scp@ =~= Seq::empty());
        return Ok(CardRecognition { scp });
    }
    let top: Vec<Tlv<'_>> = tlv::parse(data)?;
    let body: Option<&[u8]> = match find(&top, TAG_CRD) {
        Some(wrapped) => {
            let inner: Vec<Tlv<'_>> = tlv::parse(wrapped)?;
            find(&inner, TAG_CRD_BODY)
        },
        None => find(&top, TAG_CRD_BODY),
    };
    assert(Ok::<Option<Seq<u8>>, TlvError>(opt_bytes(body)) == crd_body(data@));
    let body: &[u8] = match body {
        Some(b) => b,
        None => {
            assert(scp@ =~= Seq::empty());
            return Ok(CardRecognition { scp });
        },
    };
    let entries: Vec<Tlv<'_>> = tlv::parse(body)?;
    let ghost all = tlv_views(entries@);
    let mut i: usize = 0;
    assert(all.skip(0) =~= all);
    assert(prepend(scp@, scp_list(all, 0)) == scp_list(all, 0)) by {
        match scp_list(all, 0) {
            Ok(v) => assert(scp@ + v =~= v),
            Err(e) => {},
        }
    }
    while i < entries.len()
        invariant
            i <= entries@.len(),
            all == tlv_views(entries@),
            scp@.len() <= MAX_SCP_VARIANTS,
            card_recognition(data@) == scp_list(all, 0),
            scp_list(all, 0) == prepend(scp@, scp_list(all.skip(i as int), scp@.len())),
        decreases entries@.len() - i,
    {
        let entry: Tlv<'_> = entries[i];
        assert(all.skip(i as int)[0] == entry@);
        assert(all.skip(i as int).skip(1) =~= all.skip(i + 1));
        if entry.tag == TAG_SCP_ENTRY {
            if let Some(v) = read_scp_entry(entry.value)? {
                if scp.len() >= MAX_SCP_VARIANTS {
                    return Err(TlvError::TooMany);
                }
                let ghost before = scp@;
                scp.push(v);
                proof {
                    match scp_list(all.skip(i + 1), scp@.len()) {
                        Ok(rest) => assert(before + (seq![v] + rest) =~= scp@ + rest),
                        Err(e) => {},
                    }
                }
            }
        }
        i = i + 1;
    }
    proof {
        assert(all.skip(i as int).len() == 0);
        assert(scp@ + Seq::<ScpVariant>::empty() =~= scp@);
    }
    Ok(CardRecognition { scp })
}

// ---- Key information -------------------------------------------------------

/// The keys of a security domain, grouped by version.
#[derive(Debug)]
pub struct KeyInformation {
    pub format: KeyTemplateFormat,
    pub keysets: Vec<Keyset>,
}

/// The type that a key type byte stands for.
pub open spec fn key_type_of(byte: u8) -> KeyType {
    if byte == 0x80 {
        KeyType::Des
    } else if byte == 0x88 {
        KeyType::Aes
    } else if byte == 0xA1 {
        KeyType::RsaPublic
    } else if byte == 0xA2 {
        KeyType::RsaPrivateCrt
    } else if byte == 0xA3 {
        KeyType::RsaPrivateExponent
    } else if byte == 0xB0 {
        KeyType::EccPublic
    } else if byte == 0xB1 {
        KeyType::EccPrivate
    } else if byte == 0xB2 {
        KeyType::EccParametersRef
    } else {
        KeyType::Other(byte)
    }
}

/// A key with the version that it belongs to.
pub struct KeySlot {
    pub kvn: u8,
    pub key: KeyInfo,
}

/// An entry in the extended format.
pub open spec fn entry_is_extended(value: Seq<u8>) -> bool {
    value.len() >= 3 && value[2] == KEY_EXTENDED_MARKER
}

/// The keys that one entry lists: identifier, version, and then pairs of type
/// and length. An extended entry lists one key of which no more is said, and an
/// entry without identifier and version none.
pub open spec fn entry_keys(value: Seq<u8>) -> Seq<KeySlot> {
    if value.len() < 2 {
        Seq::empty()
    } else if entry_is_extended(value) {
        seq![
            KeySlot {
                kvn: value[1],
                key: KeyInfo {
                    kid: value[0],
                    key_type: KeyType::Other(KEY_EXTENDED_MARKER),
                    key_length: 0,
                },
            },
        ]
    } else {
        Seq::new(
            ((value.len() - 2) / 2) as nat,
            |i: int|
                KeySlot {
                    kvn: value[1],
                    key: KeyInfo {
                        kid: value[0],
                        key_type: key_type_of(value[2 + 2 * i]),
                        key_length: value[3 + 2 * i],
                    },
                },
        )
    }
}

/// The keys that the entries list, in order.
pub open spec fn listed_keys(entries: Seq<TlvObject>) -> Seq<KeySlot>
    decreases entries.len(),
{
    if entries.len() == 0 {
        Seq::empty()
    } else if entries.last().tag == TAG_KEY_ENTRY {
        listed_keys(entries.drop_last()) + entry_keys(entries.last().value)
    } else {
        listed_keys(entries.drop_last())
    }
}

/// Whether some entry is in the extended format.
pub open spec fn some_extended(entries: Seq<TlvObject>) -> bool {
    exists|i: int|
        0 <= i < entries.len() && (#[trigger] entries[i]).tag == TAG_KEY_ENTRY && entry_is_extended(
            entries[i].value,
        )
}

/// The position of a version among the key sets.
pub open spec fn version_at(sets: Seq<KeysetView>, kvn: u8) -> Option<int> {
    if exists|i: int| 0 <= i < sets.len() && (#[trigger] sets[i]).kvn == kvn {
        Some(choose|i: int| 0 <= i < sets.len() && (#[trigger] sets[i]).kvn == kvn)
    } else {
        None
    }
}

/// The key sets after one more key; a set is made for a new version.
pub open spec fn with_key(sets: Seq<KeysetView>, slot: KeySlot) -> Result<
    Seq<KeysetView>,
    TlvError,
> {
    match version_at(sets, slot.kvn) {
        Some(i) => if sets[i].keys.len() >= MAX_KEYS_PER_SET {
            Err(TlvError::TooMany)
        } else {
            Ok(sets.update(i, KeysetView { kvn: slot.kvn, keys: sets[i].keys.push(slot.key) }))
        },
        None => if sets.len() >= MAX_KEYSETS {
            Err(TlvError::TooMany)
        } else {
            Ok(sets.push(KeysetView { kvn: slot.kvn, keys: seq![slot.key] }))
        },
    }
}

/// The keys grouped by version.
pub open spec fn grouped(slots: Seq<KeySlot>) -> Result<Seq<KeysetView>, TlvError>
    decreases slots.len(),
{
    if slots.len() == 0 {
        Ok(Seq::empty())
    } else {
        match grouped(slots.drop_last()) {
            Err(e) => Err(e),
            Ok(sets) => with_key(sets, slots.last()),
        }
    }
}

/// What a key information template says.
pub open spec fn key_information(s: Seq<u8>) -> Result<
    (KeyTemplateFormat, Seq<KeysetView>),
    TlvError,
> {
    if s.len() == 0 {
        Ok((KeyTemplateFormat::Basic, Seq::empty()))
    } else {
        match unwrapped_objects(s, TAG_KEY_TEMPLATE) {
            Err(e) => Err(e),
            Ok(entries) => match grouped(listed_keys(entries)) {
                Err(e) => Err(e),
                Ok(sets) => Ok(
                    (
                        if some_extended(entries) {
                            KeyTemplateFormat::Extended
                        } else {
                            KeyTemplateFormat::Basic
                        },
                        sets,
                    ),
                ),
            },
        }
    }
}

/// The outcome of [`parse_key_information`].
pub open spec fn keys_read(r: Result<KeyInformation, TlvError>) -> Result<
    (KeyTemplateFormat, Seq<KeysetView>),
    TlvError,
> {
    match r {
        Ok(info) => Ok((info.format, keyset_views(info.keysets@))),
        Err(e) => Err(e),
    }
}

/// No version occurs twice.
pub open spec fn versions_distinct(sets: Seq<KeysetView>) -> bool {
    forall|i: int, j: int|
        0 <= i < j < sets.len() ==> (#[trigger] sets[i]).kvn != (#[trigger] sets[j]).kvn
}

/// The keys of one version, in the order of the slots.
pub open spec fn keys_of_version(slots: Seq<KeySlot>, kvn: u8) -> Seq<KeyInfo>
    decreases slots.len(),
{
    if slots.len() == 0 {
        Seq::empty()
    } else if slots.last().kvn == kvn {
        keys_of_version(slots.drop_last(), kvn).push(slots.last().key)
    } else {
        keys_of_version(slots.drop_last(), kvn)
    }
}

/// Grouping keeps every key: each set holds exactly the keys of its version, in
/// the order in which the card listed them, no version has two sets, and a
/// version without a set has no keys.
pub proof fn law_keysets_group_by_version(slots: Seq<KeySlot>)
    requires
        grouped(slots) is Ok,
    ensures
        versions_distinct(grouped(slots)->Ok_0),
        grouped(slots)->Ok_0.len() <= MAX_KEYSETS,
        forall|i: int|
            #![trigger grouped(slots)->Ok_0[i]]
            0 <= i < grouped(slots)->Ok_0.len() ==> {
                let set = grouped(slots)->Ok_0[i];
                set.keys == keys_of_version(slots, set.kvn) && 1 <= set.keys.len()
                    <= MAX_KEYS_PER_SET
            },
        forall|kvn: u8|
            version_at(grouped(slots)->Ok_0, kvn) is None ==> (#[trigger] keys_of_version(
                slots,
                kvn,
            )).len() == 0,
    decreases slots.len(),
{
    if slots.len() > 0 {
        let init = slots.drop_last();
        let slot = slots.last();
        law_keysets_group_by_version(init);
        let sets = grouped(init)->Ok_0;
        let next = grouped(slots)->Ok_0;
        match version_at(sets, slot.kvn) {
            Some(at) => {
                assert(0 <= at < sets.len() && sets[at].kvn == slot.kvn);
                assert forall|kvn: u8| version_at(next, kvn) is None implies (
                #[trigger] keys_of_version(slots, kvn)).len() == 0 by {
                    assert(next[at].kvn == slot.kvn);
                    assert(kvn != slot.kvn);
                    assert(version_at(sets, kvn) is None) by {
                        if exists|i: int| 0 <= i < sets.len() && (#[trigger] sets[i]).kvn == kvn {
                            let i = choose|i: int|
                                0 <= i < sets.len() && (#[trigger] sets[i]).kvn == kvn;
                            assert(next[i].kvn == kvn);
                        }
                    }
                    assert(keys_of_version(init, kvn).len() == 0);
                }
            },
            None => {
                assert(keys_of_version(init, slot.kvn) =~= Seq::empty());
                assert forall|kvn: u8| version_at(next, kvn) is None implies (
                #[trigger] keys_of_version(slots, kvn)).len() == 0 by {
                    assert(next[sets.len() as int].kvn == slot.kvn);
                    assert(kvn != slot.kvn);
                    assert(version_at(sets, kvn) is None) by {
                        if exists|i: int| 0 <= i < sets.len() && (#[trigger] sets[i]).kvn == kvn {
                            let i = choose|i: int|
                                0 <= i < sets.len() && (#[trigger] sets[i]).kvn == kvn;
                            assert(next[i].kvn == kvn);
                        }
                    }
                    assert(keys_of_version(init, kvn).len() == 0);
                }
            },
        }
    }
}

/// Decodes a key type byte.
fn decode_key_type(byte: u8) -> (r: KeyType)
    ensures
        r == key_type_of(byte),
{
    match byte {
        0x80 => KeyType::Des,
        0x88 => KeyType::Aes,
        0xA1 => KeyType::RsaPublic,
        0xA2 => KeyType::RsaPrivateCrt,
        0xA3 => KeyType::RsaPrivateExponent,
        0xB0 => KeyType::EccPublic,
        0xB1 => KeyType::EccPrivate,
        0xB2 => KeyType::EccParametersRef,
        other => KeyType::Other(other),
    }
}

/// Puts a key into the set of its version.
fn push_key(keysets: &mut Vec<Keyset>, kvn: u8, key: KeyInfo) -> (r: Result<(), TlvError>)
    requires
        versions_distinct(keyset_views(old(keysets)@)),
    ensures
        match with_key(keyset_views(old(keysets)@), KeySlot { kvn, key }) {
            Ok(sets) => r is Ok && keyset_views(final(keysets)@) == sets && versions_distinct(sets),
            Err(e) => r == Err::<(), TlvError>(e),
        },
{
    let ghost before = keyset_views(keysets@);
    let mut i: usize = 0;
    while i < keysets.len()
        invariant
            i <= keysets@.len(),
            before == keyset_views(old(keysets)@),
            *keysets == *old(keysets),
            versions_distinct(before),
            forall|j: int| 0 <= j < i ==> (#[trigger] before[j]).kvn != kvn,
        decreases keysets@.len() - i,
    {
        assert(before[i as int] == keysets@[i as int]@);
        if keysets[i].kvn == kvn {
            assert(version_at(before, kvn) == Some(i as int));
            if keysets[i].keys.len() >= MAX_KEYS_PER_SET {
                return Err(TlvError::TooMany);
            }
            keysets[i].keys.push(key);
            assert(keyset_views(keysets@) =~= before.update(
                i as int,
                KeysetView { kvn, keys: before[i as int].keys.push(key) },
            ));
            return Ok(());
        }
        i = i + 1;
    }
    assert(version_at(before, kvn) is None);
    if keysets.len() >= MAX_KEYSETS {
        return Err(TlvError::TooMany);
    }
    let mut keys: Vec<KeyInfo> = Vec::new();
    keys.push(key);
    assert(keys@ =~= seq![key]);
    keysets.push(Keyset { kvn, keys });
    assert(keyset_views(keysets@) =~= before.push(KeysetView { kvn, keys: seq![key] }));
    Ok(())
}

proof fn lemma_grouped_error_sticks(slots: Seq<KeySlot>, more: Seq<KeySlot>)
    requires
        grouped(slots) is Err,
    ensures
        grouped(slots + more) == grouped(slots),
    decreases more.len(),
{
    if more.len() == 0 {
        assert(slots + more =~= slots);
    } else {
        lemma_grouped_error_sticks(slots, more.drop_last());
        assert((slots + more).drop_last() =~= slots + more.drop_last());
    }
}

proof fn lemma_listed_prefix(entries: Seq<TlvObject>, k: int)
    requires
        0 <= k <= entries.len(),
    ensures
        exists|more: Seq<KeySlot>|
            listed_keys(entries) == #[trigger] (listed_keys(entries.take(k)) + more),
    decreases entries.len(),
{
    if k == entries.len() {
        assert(entries.take(k) =~= entries);
        assert(listed_keys(entries) =~= listed_keys(entries.take(k)) + Seq::empty());
    } else {
        lemma_listed_prefix(entries.drop_last(), k);
        assert(entries.drop_last().take(k) =~= entries.take(k));
        let more = choose|more: Seq<KeySlot>|
            listed_keys(entries.drop_last()) == #[trigger] (listed_keys(entries.take(k)) + more);
        if entries.last().tag == TAG_KEY_ENTRY {
            let tail = entry_keys(entries.last().value);
            assert(listed_keys(entries) =~= listed_keys(entries.take(k)) + (more + tail));
        } else {
            assert(listed_keys(entries) == listed_keys(entries.take(k)) + more);
        }
    }
}

/// Adds the keys of one entry.
fn push_entry(keysets: &mut Vec<Keyset>, value: &[u8], Ghost(before): Ghost<Seq<KeySlot>>) -> (r:
    Result<bool, TlvError>)
    requires
        grouped(before) == Ok::<Seq<KeysetView>, TlvError>(keyset_views(old(keysets)@)),
        versions_distinct(keyset_views(old(keysets)@)),
    ensures
        match grouped(before + entry_keys(value@)) {
            Ok(sets) => r == Ok::<bool, TlvError>(entry_is_extended(value@)) && keyset_views(
                final(keysets)@,
            ) == sets && versions_distinct(sets),
            Err(e) => r == Err::<bool, TlvError>(e),
        },
{
    let ghost slots = entry_keys(value@);
    if value.len() < 2 {
        assert(before + slots =~= before);
        return Ok(false);
    }
    let kid: u8 = value[0];
    let kvn: u8 = value[1];
    if value.len() >= 3 && value[2] == KEY_EXTENDED_MARKER {
        let key: KeyInfo = KeyInfo {
            kid,
            key_type: KeyType::Other(KEY_EXTENDED_MARKER),
            key_length: 0,
        };
        assert((before + slots).drop_last() =~= before);
        assert((before + slots).last() == KeySlot { kvn, key });
        push_key(keysets, kvn, key)?;
        return Ok(true);
    }
    let pairs: usize = (value.len() - 2) / 2;
    let mut i: usize = 0;
    assert(before + slots.take(0) =~= before);
    while i < pairs
        invariant
            i <= pairs,
            2 + 2 * pairs <= value.len(),
            value@.len() >= 2,
            !entry_is_extended(value@),
            pairs == slots.len(),
            slots == entry_keys(value@),
            kid == value@[0],
            kvn == value@[1],
            grouped(before + slots.take(i as int)) == Ok::<Seq<KeysetView>, TlvError>(
                keyset_views(keysets@),
            ),
            versions_distinct(keyset_views(keysets@)),
        decreases pairs - i,
    {
        let key: KeyInfo = KeyInfo {
            kid,
            key_type: decode_key_type(value[2 + 2 * i]),
            key_length: value[3 + 2 * i],
        };
        let ghost upto = before + slots.take(i + 1);
        proof {
            assert(upto.drop_last() =~= before + slots.take(i as int));
            assert(upto.last() == KeySlot { kvn, key });
            if grouped(upto) is Err {
                lemma_grouped_error_sticks(upto, slots.skip(i + 1));
                assert(upto + slots.skip(i + 1) =~= before + slots);
            }
        }
        push_key(keysets, kvn, key)?;
        i = i + 1;
    }
    assert(slots.take(i as int) =~= slots);
    Ok(false)
}

/// Reads a key information template. Each entry names the key identifier first
/// and then the version (GPCS v2.3.1 Table 11-70).
pub fn parse_key_information(data: &[u8]) -> (r: Result<KeyInformation, TlvError>)
    ensures
        keys_read(r) == key_information(data@),
{
    let mut format: KeyTemplateFormat = KeyTemplateFormat::Basic;
    let mut keysets: Vec<Keyset> = Vec::new();
    assert(keyset_views(keysets@) =~= Seq::empty());
    if data.len() == 0 {
        return Ok(KeyInformation { format, keysets });
    }
    let top: Vec<Tlv<'_>> = tlv::parse(data)?;
    let entries: Vec<Tlv<'_>> = match find(&top, TAG_KEY_TEMPLATE) {
        Some(body) => tlv::parse(body)?,
        None => top,
    };
    let ghost all = tlv_views(entries@);
    let mut i: usize = 0;
    assert(all.take(0) =~= Seq::empty());
    while i < entries.len()
        invariant
            i <= entries@.len(),
            all == tlv_views(entries@),
            data@.len() > 0,
            unwrapped_objects(data@, TAG_KEY_TEMPLATE) == Ok::<Seq<TlvObject>, TlvError>(all),
            grouped(listed_keys(all.take(i as int))) == Ok::<Seq<KeysetView>, TlvError>(
                keyset_views(keysets@),
            ),
            versions_distinct(keyset_views(keysets@)),
            format == (if some_extended(all.take(i as int)) {
                KeyTemplateFormat::Extended
            } else {
                KeyTemplateFormat::Basic
            }),
        decreases entries@.len() - i,
    {
        let entry: Tlv<'_> = entries[i];
        let ghost cur = all.take(i as int);
        let ghost next = all.take(i + 1);
        proof {
            assert(next.drop_last() =~= cur);
            assert(next.last() == entry@);
            assert(entry.tag != TAG_KEY_ENTRY ==> some_extended(next) == some_extended(cur)) by {
                lemma_some_extended_step(all, i as int);
            }
            lemma_some_extended_step(all, i as int);
            lemma_listed_prefix(all, i + 1);
            let more = choose|more: Seq<KeySlot>|
                listed_keys(all) == #[trigger] (listed_keys(next) + more);
            if grouped(listed_keys(next)) is Err {
                lemma_grouped_error_sticks(listed_keys(next), more);
            }
        }
        if entry.tag == TAG_KEY_ENTRY {
            if push_entry(&mut keysets, entry.value, Ghost(listed_keys(cur)))? {
                format = KeyTemplateFormat::Extended;
            }
        }
        i = i + 1;
    }
    assert(all.take(i as int) =~= all);
    Ok(KeyInformation { format, keysets })
}

proof fn lemma_some_extended_step(entries: Seq<TlvObject>, i: int)
    requires
        0 <= i < entries.len(),
    ensures
        some_extended(entries.take(i + 1)) == (some_extended(entries.take(i)) || (entries[i].tag
            == TAG_KEY_ENTRY && entry_is_extended(entries[i].value))),
{
    let cur = entries.take(i);
    let next = entries.take(i + 1);
    if some_extended(cur) {
        let j = choose|j: int|
            0 <= j < cur.len() && (#[trigger] cur[j]).tag == TAG_KEY_ENTRY && entry_is_extended(
                cur[j].value,
            );
        assert(next[j] == cur[j]);
    }
    assert(next[i] == entries[i]);
    if some_extended(next) {
        let j = choose|j: int|
            0 <= j < next.len() && (#[trigger] next[j]).tag == TAG_KEY_ENTRY && entry_is_extended(
                next[j].value,
            );
        if j < i {
            assert(cur[j] == next[j]);
        }
    }
}

// ---- Card capability information -------------------------------------------

/// At most the first `n` bytes of `s`.
pub open spec fn at_most(s: Seq<u8>, n: int) -> Seq<u8> {
    if s.len() <= n {
        s
    } else {
        s.take(n)
    }
}

/// Number of logical channels and supported privileges; one channel and no
/// privileges where the card does not say.
pub open spec fn capability_fields(objects: Seq<TlvObject>) -> (u8, Seq<u8>) {
    let channels = match first_value(objects, TAG_CCI_CHANNELS) {
        Some(v) => if v.len() > 0 {
            v[0]
        } else {
            1
        },
        None => 1,
    };
    let privileges = match first_value(objects, TAG_CCI_PRIVILEGES) {
        Some(v) => at_most(v, MAX_PRIVILEGE_BYTES as int),
        None => Seq::empty(),
    };
    (channels, privileges)
}

/// What card capability information says.
pub open spec fn card_capabilities(s: Seq<u8>) -> Result<(u8, Seq<u8>), TlvError> {
    if s.len() == 0 {
        Ok((1u8, Seq::empty()))
    } else {
        match unwrapped_objects(s, TAG_CCI) {
            Err(e) => Err(e),
            Ok(objects) => Ok(capability_fields(objects)),
        }
    }
}

/// `r` is what reading `s` as card capability information gives. Ciphers and
/// memory sizes are not decoded; the raw object is kept.
pub open spec fn capabilities_read(r: Result<CardCapabilities, TlvError>, s: Seq<u8>) -> bool {
    match (r, card_capabilities(s)) {
        (Ok(c), Ok((channels, privileges))) => {
            &&& c.max_logical_channels == channels
            &&& c.privileges_supported@ == privileges
            &&& c.cci_raw@ == at_most(s, GETDATA_RAW_MAX as int)
            &&& c.ciphers_supported@.len() == 0
            &&& c.memory_total_bytes is None
            &&& c.memory_free_bytes is None
        },
        (Err(e), Err(expected)) => e == expected,
        _ => false,
    }
}

/// The first bytes of `src`, at most `n`.
pub(crate) fn take_at_most(src: &[u8], n: usize) -> (r: Vec<u8>)
    ensures
        r@ == at_most(src@, n as int),
{
    if src.len() <= n {
        vstd::slice::slice_to_vec(src)
    } else {
        vstd::slice::slice_to_vec(&src[0..n])
    }
}

/// Reads card capability information.
pub fn parse_card_capabilities(data: &[u8]) -> (r: Result<CardCapabilities, TlvError>)
    ensures
        capabilities_read(r, data@),
{
    let cci_raw: Vec<u8> = take_at_most(data, GETDATA_RAW_MAX);
    let mut max_logical_channels: u8 = 1;
    let mut privileges_supported: Vec<u8> = Vec::new();
    assert(privileges_supported@ =~= Seq::empty());
    if data.len() > 0 {
        let top: Vec<Tlv<'_>> = tlv::parse(data)?;
        let subs: Vec<Tlv<'_>> = match find(&top, TAG_CCI) {
            Some(body) => tlv::parse(body)?,
            None => top,
        };
        if let Some(channels) = find(&subs, TAG_CCI_CHANNELS) {
            if channels.len() > 0 {
                max_logical_channels = channels[0];
            }
        }
        if let Some(privileges) = find(&subs, TAG_CCI_PRIVILEGES) {
            privileges_supported = take_at_most(privileges, MAX_PRIVILEGE_BYTES);
        }
    }
    Ok(
        CardCapabilities {
            max_logical_channels,
            ciphers_supported: Vec::new(),
            privileges_supported,
            memory_total_bytes: None,
            memory_free_bytes: None,
            cci_raw,
        },
    )
}

// ---- Registry entries ------------------------------------------------------

/// The state that a life cycle byte stands for.
pub open spec fn life_cycle_of(byte: u8) -> CardLifeCycle {
    if byte == 0x01 {
        CardLifeCycle::OpReady
    } else if byte == 0x07 {
        CardLifeCycle::Initialized
    } else if byte == 0x0F {
        CardLifeCycle::Secured
    } else if byte == 0x7F {
        CardLifeCycle::CardLocked
    } else if byte == 0xFF {
        CardLifeCycle::Terminated
    } else {
        CardLifeCycle::Unknown(byte)
    }
}

/// The card's state in a GET STATUS answer: the life cycle byte of the first
/// registry entry.
pub open spec fn reported_state(s: Seq<u8>) -> Result<Option<CardLifeCycle>, TlvError> {
    if s.len() == 0 {
        Ok(None)
    } else {
        match tlv_objects(s) {
            Err(e) => Err(e),
            Ok(top) => match first_value(top, TAG_GP_REGISTRY) {
                None => Ok(None),
                Some(entry) => match tlv_objects(entry) {
                    Err(e) => Err(e),
                    Ok(fields) => match first_value(fields, TAG_LIFE_CYCLE) {
                        Some(v) => if v.len() > 0 {
                            Ok(Some(life_cycle_of(v[0])))
                        } else {
                            Ok(None)
                        },
                        None => Ok(None),
                    },
                },
            },
        }
    }
}

/// Decodes a life cycle byte.
fn decode_life_cycle(byte: u8) -> (r: CardLifeCycle)
    ensures
        r == life_cycle_of(byte),
{
    match byte {
        0x01 => CardLifeCycle::OpReady,
        0x07 => CardLifeCycle::Initialized,
        0x0F => CardLifeCycle::Secured,
        0x7F => CardLifeCycle::CardLocked,
        0xFF => CardLifeCycle::Terminated,
        other => CardLifeCycle::Unknown(other),
    }
}

/// Decoding a byte and writing the state back gives the byte.
pub proof fn law_life_cycle_round_trip(byte: u8)
    ensures
        life_cycle_byte(life_cycle_of(byte)) == byte,
{
}

/// Reads the card's state from a GET STATUS answer; nothing where the answer
/// holds no registry entry with a life cycle byte.
pub fn parse_status_e3(data: &[u8]) -> (r: Result<Option<CardLifeCycle>, TlvError>)
    ensures
        r == reported_state(data@),
{
    if data.len() == 0 {
        return Ok(None);
    }
    let top: Vec<Tlv<'_>> = tlv::parse(data)?;
    let entry: &[u8] = match find(&top, TAG_GP_REGISTRY) {
        Some(v) => v,
        None => return Ok(None),
    };
    let fields: Vec<Tlv<'_>> = tlv::parse(entry)?;
    match find(&fields, TAG_LIFE_CYCLE) {
        Some(v) => {
            if v.len() > 0 {
                Ok(Some(decode_life_cycle(v[0])))
            } else {
                Ok(None)
            }
        },
        None => Ok(None),
    }
}

/// One registry entry of any scope; identifiers borrow from the answer.
#[derive(Debug, Clone, PartialEq, Eq)]
pub struct RegistryEntry<'a> {
    /// Empty where the card names none.
    pub aid: &'a [u8],
    /// Zero where the card names none.
    pub life_cycle: u8,
    /// Padded with zeros, or cut, to three bytes.
    pub privileges: [u8; 3],
    pub associated_sd_aid: Option<&'a [u8]>,
    pub elf_aid: Option<&'a [u8]>,
    /// At most [`MAX_MODULES_PER_ELF`].
    pub modules: Vec<&'a [u8]>,
    /// The card named more modules than that.
    pub more_modules: bool,
}

/// The content of a [`RegistryEntry`].
pub struct RegistryRecord {
    pub aid: Seq<u8>,
    pub life_cycle: u8,
    pub privileges: Seq<u8>,
    pub associated_sd_aid: Option<Seq<u8>>,
    pub elf_aid: Option<Seq<u8>>,
    pub modules: Seq<Seq<u8>>,
    pub more_modules: bool,
}

impl<'a> View for RegistryEntry<'a> {
    type V = RegistryRecord;

    open spec fn view(&self) -> RegistryRecord {
        RegistryRecord {
            aid: self.aid@,
            life_cycle: self.life_cycle,
            privileges: self.privileges@,
            associated_sd_aid: opt_bytes(self.associated_sd_aid),
            elf_aid: opt_bytes(self.elf_aid),
            modules: self.modules@.map_values(|m: &[u8]| m@),
            more_modules: self.more_modules,
        }
    }
}

/// Privileges padded with zeros, or cut, to three bytes.
pub open spec fn three_bytes(value: Option<Seq<u8>>) -> Seq<u8> {
    match value {
        Some(v) => seq![
            if v.len() > 0 {
                v[0]
            } else {
                0
            },
            if v.len() > 1 {
                v[1]
            } else {
                0
            },
            if v.len() > 2 {
                v[2]
            } else {
                0
            },
        ],
        None => seq![0u8, 0u8, 0u8],
    }
}

/// The values of the objects with `tag`, in order.
pub open spec fn values_of(objects: Seq<TlvObject>, tag: u32) -> Seq<Seq<u8>>
    decreases objects.len(),
{
    if objects.len() == 0 {
        Seq::empty()
    } else if objects.last().tag == tag {
        values_of(objects.drop_last(), tag).push(objects.last().value)
    } else {
        values_of(objects.drop_last(), tag)
    }
}

/// The first `n` items of `s`, or all of them.
pub open spec fn first_n<T>(s: Seq<T>, n: int) -> Seq<T> {
    if s.len() <= n {
        s
    } else {
        s.take(n)
    }
}

/// What the fields of a registry entry say.
pub open spec fn registry_record(fields: Seq<TlvObject>) -> RegistryRecord {
    RegistryRecord {
        aid: match first_value(fields, TAG_AID) {
            Some(v) => v,
            None => Seq::empty(),
        },
        life_cycle: match first_value(fields, TAG_LIFE_CYCLE) {
            Some(v) => if v.len() > 0 {
                v[0]
            } else {
                0
            },
            None => 0,
        },
        privileges: three_bytes(first_value(fields, TAG_PRIVILEGES)),
        associated_sd_aid: first_value(fields, TAG_ASSOC_SD_AID),
        elf_aid: first_value(fields, TAG_ELF_AID),
        modules: first_n(values_of(fields, TAG_MODULE_AID), MAX_MODULES_PER_ELF as int),
        more_modules: values_of(fields, TAG_MODULE_AID).len() > MAX_MODULES_PER_ELF,
    }
}

/// What the registry entries among `objects` say, in order.
pub open spec fn registry_records(objects: Seq<TlvObject>) -> Result<Seq<RegistryRecord>, TlvError>
    decreases objects.len(),
{
    if objects.len() == 0 {
        Ok(Seq::empty())
    } else if objects[0].tag != TAG_GP_REGISTRY {
        registry_records(objects.skip(1))
    } else {
        match all_objects(objects[0].value) {
            Err(e) => Err(e),
            Ok(fields) => prepend(
                seq![registry_record(fields)],
                registry_records(objects.skip(1)),
            ),
        }
    }
}

/// What a GET STATUS answer says. However many objects it holds, only a broken one is
/// an error; of the entries at most [`MAX_REGISTRY_ENTRIES`] are kept.
pub open spec fn registry(s: Seq<u8>) -> Result<Seq<RegistryRecord>, TlvError> {
    match all_objects(s) {
        Err(e) => Err(e),
        Ok(top) => match registry_records(top) {
            Err(e) => Err(e),
            Ok(records) => Ok(first_n(records, MAX_REGISTRY_ENTRIES as int)),
        },
    }
}

/// The contents of a list of entries.
pub open spec fn registry_views(entries: Seq<RegistryEntry<'_>>) -> Seq<RegistryRecord> {
    entries.map_values(|e: RegistryEntry<'_>| e@)
}

/// The outcome of [`parse_status_registry`].
pub open spec fn registry_read(r: Result<Vec<RegistryEntry<'_>>, TlvError>) -> Result<
    Seq<RegistryRecord>,
    TlvError,
> {
    match r {
        Ok(entries) => Ok(registry_views(entries@)),
        Err(e) => Err(e),
    }
}

/// Pads or cuts privileges to three bytes.
fn privileges_to_3(value: Option<&[u8]>) -> (r: [u8; 3])
    ensures
        r@ == three_bytes(opt_bytes(value)),
{
    let mut p: [u8; 3] = [0, 0, 0];
    if let Some(b) = value {
        if b.len() > 0 {
            p[0] = b[0];
        }
        if b.len() > 1 {
            p[1] = b[1];
        }
        if b.len() > 2 {
            p[2] = b[2];
        }
    }
    assert(p@ =~= three_bytes(opt_bytes(value)));
    p
}

/// The first [`MAX_MODULES_PER_ELF`] modules among `fields`, and whether there are more.
fn modules_of<'a>(fields: &Vec<Tlv<'a>>) -> (r: (Vec<&'a [u8]>, bool))
    ensures
        r.0@.map_values(|m: &[u8]| m@) == first_n(
            values_of(tlv_views(fields@), TAG_MODULE_AID),
            MAX_MODULES_PER_ELF as int,
        ),
        r.1 == (values_of(tlv_views(fields@), TAG_MODULE_AID).len() > MAX_MODULES_PER_ELF),
{
    let ghost all = tlv_views(fields@);
    let mut modules: Vec<&'a [u8]> = Vec::new();
    let mut more: bool = false;
    let mut i: usize = 0;
    assert(all.take(0) =~= Seq::empty());
    assert(modules@.map_values(|m: &[u8]| m@) =~= Seq::empty());
    while i < fields.len()
        invariant
            i <= fields@.len(),
            all == tlv_views(fields@),
            modules@.len() <= MAX_MODULES_PER_ELF,
            more == (values_of(all.take(i as int), TAG_MODULE_AID).len() > MAX_MODULES_PER_ELF),
            modules@.map_values(|m: &[u8]| m@) == first_n(
                values_of(all.take(i as int), TAG_MODULE_AID),
                MAX_MODULES_PER_ELF as int,
            ),
        decreases fields@.len() - i,
    {
        let field: Tlv<'a> = fields[i];
        let ghost before = modules@.map_values(|m: &[u8]| m@);
        proof {
            assert(all.take(i + 1).drop_last() =~= all.take(i as int));
            assert(all.take(i + 1).last() == field@);
            assert(before.len() == modules@.len());
        }
        if field.tag == TAG_MODULE_AID {
            if modules.len() < MAX_MODULES_PER_ELF {
                modules.push(field.value);
                assert(modules@.map_values(|m: &[u8]| m@) =~= before.push(field.value@));
            } else {
                more = true;
            }
        }
        assert(modules@.map_values(|m: &[u8]| m@) =~= first_n(
            values_of(all.take(i + 1), TAG_MODULE_AID),
            MAX_MODULES_PER_ELF as int,
        ));
        i = i + 1;
    }
    assert(all.take(i as int) =~= all);
    (modules, more)
}

/// Reads the registry entries of a complete GET STATUS answer.
pub fn parse_status_registry<'a>(data: &'a [u8]) -> (r: Result<Vec<RegistryEntry<'a>>, TlvError>)
    ensures
        registry_read(r) == registry(data@),
        r matches Ok(entries) ==> entries@.len() <= MAX_REGISTRY_ENTRIES,
{
    let top: Vec<Tlv<'a>> = tlv::parse_all(data)?;
    let ghost all = tlv_views(top@);
    let ghost mut seen: Seq<RegistryRecord> = Seq::empty();
    let mut out: Vec<RegistryEntry<'a>> = Vec::new();
    let mut i: usize = 0;
    assert(all.skip(0) =~= all);
    assert(registry_views(out@) =~= first_n(seen, MAX_REGISTRY_ENTRIES as int));
    assert(prepend(seen, registry_records(all)) == registry_records(all)) by {
        match registry_records(all) {
            Ok(v) => assert(seen + v =~= v),
            Err(e) => {},
        }
    }
    while i < top.len()
        invariant
            i <= top@.len(),
            all == tlv_views(top@),
            out@.len() <= MAX_REGISTRY_ENTRIES,
            registry_views(out@) == first_n(seen, MAX_REGISTRY_ENTRIES as int),
            all_objects(data@) == Ok::<Seq<TlvObject>, TlvError>(all),
            registry_records(all) == prepend(seen, registry_records(all.skip(i as int))),
        decreases top@.len() - i,
    {
        let item: Tlv<'a> = top[i];
        assert(all.skip(i as int)[0] == item@);
        assert(all.skip(i as int).skip(1) =~= all.skip(i + 1));
        if item.tag == TAG_GP_REGISTRY {
            let fields: Vec<Tlv<'a>> = tlv::parse_all(item.value)?;
            let none: &'a [u8] = &data[0..0];
            assert(none@ =~= Seq::empty());
            let aid: &'a [u8] = match find(&fields, TAG_AID) {
                Some(v) => v,
                None => none,
            };
            let life_cycle: u8 = match find(&fields, TAG_LIFE_CYCLE) {
                Some(v) => if v.len() > 0 {
                    v[0]
                } else {
                    0
                },
                None => 0,
            };
            let (modules, more_modules) = modules_of(&fields);
            let entry: RegistryEntry<'a> = RegistryEntry {
                aid,
                life_cycle,
                privileges: privileges_to_3(find(&fields, TAG_PRIVILEGES)),
                associated_sd_aid: find(&fields, TAG_ASSOC_SD_AID),
                elf_aid: find(&fields, TAG_ELF_AID),
                modules,
                more_modules,
            };
            let ghost record = entry@;
            let ghost before = registry_views(out@);
            if out.len() < MAX_REGISTRY_ENTRIES {
                out.push(entry);
                assert(registry_views(out@) =~= before.push(record));
            }
            proof {
                assert(record == registry_record(tlv_views(fields@)));
                let more = seen.push(record);
                assert(before.len() == first_n(seen, MAX_REGISTRY_ENTRIES as int).len());
                assert(registry_views(out@) =~= first_n(more, MAX_REGISTRY_ENTRIES as int));
                match registry_records(all.skip(i + 1)) {
                    Ok(rest) => assert(seen + (seq![record] + rest) =~= more + rest),
                    Err(e) => {},
                }
                seen = more;
            }
        }
        i = i + 1;
    }
    proof {
        assert(all.skip(i as int).len() == 0);
        assert(seen + Seq::<RegistryRecord>::empty() =~= seen);
    }
    Ok(out)
}

} // verus!
