//! Discovery: what is asked of a card, and what its answers say.
use vstd::prelude::*;

use crate::error::ScllError;
use crate::laws::commands::law_short_command;
use crate::model::{keyset_views, CardInfo, DiscoveryWarning, ScpVariant};
use crate::response::{capabilities_read, card_recognition, key_information};
use crate::tlv::TlvError;
use crate::transport::Exchange;
use crate::workflow::discover::{
    asked_object, cplc_content, data_command, discovery, discovery_failure, encoding_for,
    issuer_aid, missing_objects, object_in, object_or_empty, opt_field, optional_data,
};
use crate::workflow::session::{df_name, plain_outcome, select_command, Answer};

verus! {

/// GET DATA: `80 CA`, the two octets of the tag, and `00`.
pub proof fn law_get_data_command(tag: u16)
    ensures
        ({
            let s = data_command(tag);
            &&& s.len() == 5
            &&& s[0] == 0x80 && s[1] == 0xCA
            &&& s[2] * 256 + s[3] == tag
            &&& s[4] == 0x00
        }),
{
    law_short_command(0x80, 0xCA, (tag / 256) as u8, (tag % 256) as u8, Seq::empty(), true);
}

/// What is asked of a card, in this order: a reset, SELECT of the issuer security domain,
/// and the objects `66`, `E0`, `67`, `42`, `45` and `9F7F`.
pub proof fn law_discovery_asks(
    ev: Seq<Exchange>,
    expected: Option<Seq<u8>>,
    r: Result<CardInfo, ScllError>,
    i: int,
)
    requires
        discovery(ev, expected, r),
        0 <= i < ev.len(),
    ensures
        ev.len() <= 8,
        r is Ok ==> ev.len() == 8,
        i == 0 ==> ev[i] is Reset,
        i > 0 ==> ev[i] is Apdu,
        i == 1 ==> ev[i]->Apdu_command == select_command(
            match expected {
                Some(aid) => aid,
                None => Seq::empty(),
            },
        ),
        i >= 2 ==> {
            let s = ev[i]->Apdu_command;
            let tag = s[2] * 256 + s[3];
            &&& s.len() == 5 && s[0] == 0x80 && s[1] == 0xCA && s[4] == 0x00
            &&& i == 2 ==> tag == 0x0066
            &&& i == 3 ==> tag == 0x00E0
            &&& i == 4 ==> tag == 0x0067
            &&& i == 5 ==> tag == 0x0042
            &&& i == 6 ==> tag == 0x0045
            &&& i == 7 ==> tag == 0x9F7F
        },
{
    assert(crate::workflow::discover::is_discovery_exchange(ev[i], i, expected));
    if i >= 2 {
        law_get_data_command(asked_object(i));
    }
}

/// What an answer to GET DATA means: data under `9000` are the object; no data, and
/// `6A88`, mean that there is none; any other status word is a failure.
pub proof fn law_objects_may_be_absent(a: Answer)
    ensures
        a.sw == 0x9000 && a.data.len() > 0 ==> optional_data(Ok(a)) == Ok::<
            Option<Seq<u8>>,
            ScllError,
        >(Some(a.data)),
        a.sw == 0x9000 && a.data.len() == 0 ==> optional_data(Ok(a)) == Ok::<
            Option<Seq<u8>>,
            ScllError,
        >(None),
        a.sw == 0x6A88 ==> optional_data(Ok(a)) == Ok::<Option<Seq<u8>>, ScllError>(None),
        a.sw != 0x9000 && a.sw != 0x6A88 ==> optional_data(Ok(a)) is Err,
{
}

/// The object that a card gave in an exchange.
pub open spec fn gave(x: Exchange, data: Seq<u8>) -> bool {
    &&& x matches Exchange::Apdu { command, reply }
    &&& plain_outcome(reply) == Ok::<Answer, ScllError>(Answer { data, sw: 0x9000 })
    &&& data.len() > 0
}

/// The card does not have the object of an exchange.
pub open spec fn lacks(x: Exchange) -> bool {
    &&& x matches Exchange::Apdu { command, reply }
    &&& plain_outcome(reply) matches Ok(a) && (a.sw == 0x6A88 || a.sw == 0x9000 && a.data.len()
        == 0)
}

proof fn lemma_objects(x: Exchange, data: Seq<u8>)
    ensures
        gave(x, data) ==> object_in(x) == Some(data) && object_or_empty(x) == data,
        lacks(x) ==> object_in(x) is None && object_or_empty(x).len() == 0,
{
}

/// What is said of a card is what it answered: the answer to reset; the channels in its
/// recognition data, or SCP02 with `55` where it advertises none; the keys of its key
/// information; its capabilities; its issuer and its card number, of at most sixteen
/// octets each; and its privileges encoding by its production data.
pub proof fn law_discovered(
    ev: Seq<Exchange>,
    expected: Option<Seq<u8>>,
    info: CardInfo,
    crd: Seq<u8>,
    kit: Seq<u8>,
    cci: Seq<u8>,
    iin: Seq<u8>,
    cin: Seq<u8>,
    cplc: Seq<u8>,
)
    requires
        discovery(ev, expected, Ok(info)),
        gave(ev[2], crd),
        gave(ev[3], kit),
        gave(ev[4], cci),
        gave(ev[5], iin),
        gave(ev[6], cin),
        gave(ev[7], cplc),
    ensures
        ev[0]->Reset_answer matches Ok(atr) && info.atr_or_ats@ == atr.bytes@
            && info.transport_protocol == atr.protocol,
        card_recognition(crd) matches Ok(channels) && (if channels.len() > 0 {
            info.scp_supported@ == channels
        } else {
            info.scp_supported@ == seq![ScpVariant::Scp02 { i_param: 0x55 }]
        }),
        info.scp_default == info.scp_supported@[0],
        crd.len() <= 256 ==> info.card_recognition_data_raw@ == crd,
        key_information(kit) matches Ok((format, sets)) && info.isd_key_template_format == format
            && keyset_views(info.isd_keysets@) == sets,
        capabilities_read(Ok(info.capabilities), cci),
        iin.len() <= 16 ==> opt_field(info.iin) == Some(iin),
        iin.len() > 16 ==> opt_field(info.iin) is None,
        cin.len() <= 16 ==> opt_field(info.cin) == Some(cin),
        cin.len() > 16 ==> opt_field(info.cin) is None,
        opt_field(info.card_image_number) == opt_field(info.cin),
        info.jc_platform_version is None,
        info.privilege_encoding == encoding_for(cplc_content(cplc)),
        info.quirks_detected@.len() == 0,
        card_recognition(crd)->Ok_0.len() > 0 ==> info.discovery_warnings@.len() == 0,
{
    lemma_objects(ev[2], crd);
    lemma_objects(ev[3], kit);
    lemma_objects(ev[4], cci);
    lemma_objects(ev[5], iin);
    lemma_objects(ev[6], cin);
    lemma_objects(ev[7], cplc);
    assert(discovery_failure(ev[2], 2, expected) is None);
    assert(discovery_failure(ev[3], 3, expected) is None);
    assert(discovery_failure(ev[4], 4, expected) is None);
    if card_recognition(crd)->Ok_0.len() > 0 {
        assert(missing_objects(ev) =~= Seq::empty());
    }
}

/// What is said of a card without these objects: SCP02 with `55`, no keys, one logical
/// channel, no numbers, privileges in three octets, and a remark for each of the first
/// three, in this order.
pub proof fn law_discovered_of_a_bare_card(
    ev: Seq<Exchange>,
    expected: Option<Seq<u8>>,
    info: CardInfo,
)
    requires
        discovery(ev, expected, Ok(info)),
        lacks(ev[2]),
        lacks(ev[3]),
        lacks(ev[4]),
        lacks(ev[5]),
        lacks(ev[6]),
        lacks(ev[7]),
    ensures
        info.scp_supported@ == seq![ScpVariant::Scp02 { i_param: 0x55 }],
        info.scp_default == (ScpVariant::Scp02 { i_param: 0x55 }),
        info.isd_keysets@.len() == 0,
        info.capabilities.max_logical_channels == 1,
        opt_field(info.iin) is None,
        opt_field(info.cin) is None,
        info.privilege_encoding is Canonical,
        info.discovery_warnings@ == seq![
            DiscoveryWarning::CardRecognitionDataMissing,
            DiscoveryWarning::KeyInformationTemplateMissing,
            DiscoveryWarning::CardCapabilityInfoMissing,
        ],
{
    lemma_objects(ev[2], Seq::empty());
    lemma_objects(ev[3], Seq::empty());
    lemma_objects(ev[4], Seq::empty());
    lemma_objects(ev[5], Seq::empty());
    lemma_objects(ev[6], Seq::empty());
    lemma_objects(ev[7], Seq::empty());
    assert(keyset_views(info.isd_keysets@).len() == info.isd_keysets@.len());
    assert(missing_objects(ev) =~= seq![
        DiscoveryWarning::CardRecognitionDataMissing,
        DiscoveryWarning::KeyInformationTemplateMissing,
        DiscoveryWarning::CardCapabilityInfoMissing,
    ]);
}

/// The identifier of the issuer security domain: the caller's where there is one, and
/// otherwise the one in the answer to SELECT. One of another length than 5 to 16 octets
/// is refused, and so is none.
pub proof fn law_issuer(expected: Option<Seq<u8>>, fci: Seq<u8>, aid: Seq<u8>)
    ensures
        expected == Some(aid) || expected is None && df_name(fci) == Ok::<
            Option<Seq<u8>>,
            TlvError,
        >(Some(aid)) ==> (if 5 <= aid.len() <= 16 {
            issuer_aid(expected, fci) == Ok::<Seq<u8>, ScllError>(aid)
        } else {
            issuer_aid(expected, fci) is Err
        }),
        expected is None && df_name(fci) == Ok::<Option<Seq<u8>>, TlvError>(None) ==> issuer_aid(
            expected,
            fci,
        ) == Err::<Seq<u8>, ScllError>(ScllError::IsdAidNotFound),
{
}

/// Production data with the frame `9F 7F` and their length are what the frame holds;
/// without it they are themselves.
pub proof fn law_production_data(content: Seq<u8>, rest: Seq<u8>)
    requires
        content.len() <= 255,
    ensures
        cplc_content(seq![0x9Fu8, 0x7Fu8, content.len() as u8] + content + rest) == content,
        !(content.len() >= 2 && content[0] == 0x9F && content[1] == 0x7F) ==> cplc_content(content)
            == content,
{
    let framed = seq![0x9Fu8, 0x7Fu8, content.len() as u8] + content + rest;
    assert(framed.subrange(3, 3 + framed[2]) =~= content);
}

/// A card takes its privileges in one octet exactly where its production data say that NXP
/// (`4790`) made it and that its operating system is `47xx`.
pub proof fn law_privileges_encoding(content: Seq<u8>)
    ensures
        encoding_for(content) is Jcop1Byte <==> (content.len() >= 6 && content[0] * 256
            + content[1] == 0x4790 && content[4] == 0x47),
{
}

} // verus!
