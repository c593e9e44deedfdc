//! What a card tells without authentication.
use vstd::prelude::*;

use crate::aid::{aid_shaped, Aid};
use crate::buffers::{
    capdu_bytes, capdu_slice, field_bytes, field_from_slice, rapdu_bytes, rapdu_slice, Capdu,
    Field, Rapdu,
};
use crate::command::get_data::get_data;
use crate::command::install::PrivLen;
use crate::command::{short_apdu, BuildError};
use crate::error::{general_sw, ScllError};
use crate::limits::{CIN_MAX, GETDATA_RAW_MAX, IIN_MAX};
use crate::model::{keyset_views, CardCapabilities, CardInfo, DiscoveryWarning, ScpVariant};
use crate::response::{
    at_most, capabilities_read, card_capabilities, card_recognition, key_information, opt_bytes,
    parse_card_capabilities, parse_card_recognition, parse_key_information, take_at_most,
    KeyInformation,
};
use crate::scp::scp03::response_view;
use crate::transport::{AtrAts, Exchange, Transport, TransportError};
use crate::workflow::session::{
    answer_view, df_name, fails_with, fci_df_name, map_transport, plain_outcome, select,
    select_command, select_outcome, sent, transmit_plain, transport_failure, Answer, SW_OK,
    SW_REF_NOT_FOUND,
};

verus! {

/// Card recognition data.
pub const TAG_CRD: u16 = 0x0066;

/// Key information template.
pub const TAG_KIT: u16 = 0x00E0;

/// Card capability information.
pub const TAG_CCI: u16 = 0x0067;

/// Issuer identification number.
pub const TAG_IIN: u16 = 0x0042;

/// Card image number.
pub const TAG_CIN: u16 = 0x0045;

/// Production life cycle data.
pub const TAG_CPLC: u16 = 0x9F7F;

/// What is taken for granted where a card advertises no usable secure channel.
pub open spec fn fallback_scp() -> ScpVariant {
    ScpVariant::Scp02 { i_param: 0x55 }
}

// ---- Privileges encoding ---------------------------------------------------

/// The production data without the tag and length that may frame it.
pub open spec fn cplc_content(data: Seq<u8>) -> Seq<u8> {
    if data.len() >= 3 && data[0] == 0x9F && data[1] == 0x7F && data.len() >= 3 + data[2] {
        data.subrange(3, 3 + data[2])
    } else {
        data
    }
}

/// NXP JCOP, told by its fabricator and its operating system, takes the
/// privileges in one byte; every other card takes three.
pub open spec fn encoding_for(content: Seq<u8>) -> PrivLen {
    if content.len() >= 6 && content[0] == 0x47 && content[1] == 0x90 && content[4] == 0x47 {
        PrivLen::Jcop1Byte
    } else {
        PrivLen::Canonical
    }
}

/// Strips the frame `9F 7F len` from production data, if it is whole.
pub fn cplc_value(data: &[u8]) -> (r: &[u8])
    ensures
        r@ == cplc_content(data@),
{
    if data.len() >= 3 && data[0] == 0x9F && data[1] == 0x7F {
        let len: usize = data[2] as usize;
        if data.len() >= 3 + len {
            return &data[3..3 + len];
        }
    }
    data
}

/// Chooses the privileges encoding from production data.
pub fn priv_len_from_cplc(value: &[u8]) -> (r: PrivLen)
    ensures
        r == encoding_for(value@),
{
    if value.len() >= 6 && value[0] == 0x47 && value[1] == 0x90 && value[4] == 0x47 {
        PrivLen::Jcop1Byte
    } else {
        PrivLen::Canonical
    }
}

// ---- Identity --------------------------------------------------------------

/// The identifier of the issuer security domain: the caller's, or the one in
/// the FCI template.
pub open spec fn issuer_aid(expected: Option<Seq<u8>>, fci: Seq<u8>) -> Result<
    Seq<u8>,
    ScllError,
> {
    let found = match expected {
        Some(e) => Ok(Some(e)),
        None => match df_name(fci) {
            Ok(name) => Ok(name),
            Err(e) => Err(ScllError::MalformedResponse(e)),
        },
    };
    match found {
        Err(e) => Err(e),
        Ok(None) => Err(ScllError::IsdAidNotFound),
        Ok(Some(aid)) => if aid_shaped(aid) {
            Ok(aid)
        } else {
            Err(ScllError::InvalidAid { len: aid.len() as usize })
        },
    }
}

/// The content of an identifier result.
pub open spec fn aid_result(r: Result<Aid, ScllError>) -> Result<Seq<u8>, ScllError> {
    match r {
        Ok(aid) => Ok(aid@),
        Err(e) => Err(e),
    }
}

/// Finds the identifier of the issuer security domain.
pub fn resolve_isd_aid(expected: Option<&[u8]>, fci: &[u8]) -> (r: Result<Aid, ScllError>)
    ensures
        aid_result(r) == issuer_aid(opt_bytes(expected), fci@),
{
    if let Some(e) = expected {
        return Aid::new(e);
    }
    match fci_df_name(fci)? {
        Some(name) => Aid::new(name),
        None => Err(ScllError::IsdAidNotFound),
    }
}

// ---- Optional objects ------------------------------------------------------

/// GET DATA of an object.
pub open spec fn data_command(tag: u16) -> Seq<u8> {
    short_apdu(0x80, 0xCA, (tag / 256) as u8, (tag % 256) as u8, Seq::empty(), true)
}

/// What an answer to GET DATA means: an object that the card does not have, and
/// an empty one, is absent.
pub open spec fn optional_data(answer: Result<Answer, ScllError>) -> Result<
    Option<Seq<u8>>,
    ScllError,
> {
    match answer {
        Err(e) => Err(e),
        Ok(a) => if a.sw == SW_OK && a.data.len() > 0 {
            Ok(Some(a.data))
        } else if a.sw == SW_OK || a.sw == SW_REF_NOT_FOUND {
            Ok(None)
        } else {
            Err(general_sw(a.sw))
        },
    }
}

/// The content of an optional object.
pub open spec fn optional_view(r: Result<Option<Rapdu>, ScllError>) -> Result<
    Option<Seq<u8>>,
    ScllError,
> {
    match r {
        Ok(Some(d)) => Ok(Some(rapdu_bytes(d))),
        Ok(None) => Ok(None),
        Err(e) => Err(e),
    }
}

/// Asks for an object that the card may not have.
fn optional_get_data<T: Transport>(t: &mut T, tag: u16) -> (r: Result<Option<Rapdu>, ScllError>)
    ensures
        exists|reply: Result<Seq<u8>, TransportError>| #[trigger]
            sent(old(t).history(), final(t).history(), data_command(tag), reply) && optional_view(r)
                == optional_data(plain_outcome(reply)),
{
    let capdu: Capdu = match get_data(tag) {
        Ok(c) => c,
        Err(_) => vstd::pervasive::unreached(),
    };
    let answer = transmit_plain(t, capdu_slice(&capdu));
    proof {
        let reply = choose|reply: Result<Seq<u8>, TransportError>| #[trigger]
            sent(old(t).history(), t.history(), capdu_bytes(capdu), reply) && answer_view(answer)
                == plain_outcome(reply);
        assert(sent(old(t).history(), t.history(), data_command(tag), reply));
    }
    let (data, sw) = answer?;
    if sw == SW_OK {
        if rapdu_slice(&data).len() > 0 {
            Ok(Some(data))
        } else {
            Ok(None)
        }
    } else if sw == SW_REF_NOT_FOUND {
        Ok(None)
    } else {
        Err(ScllError::from_general_sw(sw))
    }
}

// ---- The exchanges of a discovery ------------------------------------------

/// The identifier that is selected: the caller's, or none for the default.
pub open spec fn aid_to_select(expected: Option<Seq<u8>>) -> Seq<u8> {
    match expected {
        Some(e) => e,
        None => Seq::empty(),
    }
}

/// The object that exchange number `i` asks for.
pub open spec fn asked_object(i: int) -> u16 {
    if i == 2 {
        TAG_CRD
    } else if i == 3 {
        TAG_KIT
    } else if i == 4 {
        TAG_CCI
    } else if i == 5 {
        TAG_IIN
    } else if i == 6 {
        TAG_CIN
    } else {
        TAG_CPLC
    }
}

/// Exchange number `i` is the one to make: a reset, SELECT, and then six objects.
pub open spec fn is_discovery_exchange(x: Exchange, i: int, expected: Option<Seq<u8>>) -> bool {
    match x {
        Exchange::Reset { answer } => i == 0,
        Exchange::Apdu { command, reply } => if i == 1 {
            command == select_command(aid_to_select(expected))
        } else {
            i >= 2 && command == data_command(asked_object(i))
        },
    }
}

/// What came back in an exchange.
pub open spec fn answer_of(x: Exchange) -> Result<Answer, ScllError> {
    match x {
        Exchange::Apdu { command, reply } => plain_outcome(reply),
        Exchange::Reset { answer: Err(e) } => Err(transport_failure(e)),
        Exchange::Reset { answer: Ok(_) } => Ok(Answer { data: Seq::empty(), sw: SW_OK }),
    }
}

/// The object that an exchange brought.
pub open spec fn object_in(x: Exchange) -> Option<Seq<u8>> {
    match optional_data(answer_of(x)) {
        Ok(data) => data,
        Err(_) => None,
    }
}

/// The object, or an empty one.
pub open spec fn object_or_empty(x: Exchange) -> Seq<u8> {
    match object_in(x) {
        Some(d) => d,
        None => Seq::empty(),
    }
}

/// Why a discovery ends at exchange number `i`; `None` where it goes on.
pub open spec fn discovery_failure(x: Exchange, i: int, expected: Option<Seq<u8>>) -> Option<
    ScllError,
> {
    if i == 0 {
        match answer_of(x) {
            Err(e) => Some(e),
            Ok(_) => if aid_to_select(expected).len() > 255 {
                Some(ScllError::Build(BuildError::Overflow))
            } else {
                None
            },
        }
    } else if i == 1 {
        match select_outcome(answer_of(x)) {
            Err(e) => Some(e),
            Ok(fci) => match issuer_aid(expected, fci) {
                Err(e) => Some(e),
                Ok(_) => None,
            },
        }
    } else {
        match optional_data(answer_of(x)) {
            Err(e) => Some(e),
            Ok(_) => {
                let data = object_or_empty(x);
                if i == 2 {
                    match card_recognition(data) {
                        Err(e) => Some(ScllError::MalformedResponse(e)),
                        Ok(_) => None,
                    }
                } else if i == 3 {
                    match key_information(data) {
                        Err(e) => Some(ScllError::MalformedResponse(e)),
                        Ok(_) => None,
                    }
                } else if i == 4 {
                    match card_capabilities(data) {
                        Err(e) => Some(ScllError::MalformedResponse(e)),
                        Ok(_) => None,
                    }
                } else {
                    None
                }
            },
        }
    }
}

/// A value of at most `max` bytes; a longer one is not kept.
pub open spec fn short_value(data: Option<Seq<u8>>, max: nat) -> Option<Seq<u8>> {
    match data {
        Some(d) => if d.len() <= max {
            Some(d)
        } else {
            None
        },
        None => None,
    }
}

/// The content of an optional field.
pub open spec fn opt_field(f: Option<Field>) -> Option<Seq<u8>> {
    match f {
        Some(v) => Some(field_bytes(v)),
        None => None,
    }
}

/// The channels that a card advertises.
pub open spec fn advertised(x: Exchange) -> Seq<ScpVariant> {
    card_recognition(object_or_empty(x))->Ok_0
}

/// The remarks on objects that were not there.
pub open spec fn missing_objects(ev: Seq<Exchange>) -> Seq<DiscoveryWarning> {
    let crd = if advertised(ev[2]).len() == 0 {
        seq![DiscoveryWarning::CardRecognitionDataMissing]
    } else {
        Seq::empty()
    };
    let kit = if object_in(ev[3]) is None {
        seq![DiscoveryWarning::KeyInformationTemplateMissing]
    } else {
        Seq::empty()
    };
    let cci = if object_in(ev[4]) is None {
        seq![DiscoveryWarning::CardCapabilityInfoMissing]
    } else {
        Seq::empty()
    };
    crd + kit + cci
}

/// The channels that a card is taken to support.
pub open spec fn supported(x: Exchange) -> Seq<ScpVariant> {
    if advertised(x).len() == 0 {
        seq![fallback_scp()]
    } else {
        advertised(x)
    }
}

/// What the eight exchanges say of the card.
pub open spec fn discovered(info: CardInfo, ev: Seq<Exchange>, expected: Option<Seq<u8>>) -> bool {
    &&& ev[0] matches Exchange::Reset { answer: Ok(atr) } && info.atr_or_ats@ == atr.bytes@
        && info.transport_protocol == atr.protocol
    &&& Ok::<Seq<u8>, ScllError>(info.isd_aid@) == issuer_aid(
        expected,
        select_outcome(answer_of(ev[1]))->Ok_0,
    )
    &&& info.scp_supported@ == supported(ev[2])
    &&& info.scp_default == supported(ev[2])[0]
    &&& info.card_recognition_data_raw@ == at_most(object_or_empty(ev[2]), GETDATA_RAW_MAX as int)
    &&& (info.isd_key_template_format, keyset_views(info.isd_keysets@)) == key_information(
        object_or_empty(ev[3]),
    )->Ok_0
    &&& capabilities_read(Ok(info.capabilities), object_or_empty(ev[4]))
    &&& opt_field(info.iin) == short_value(object_in(ev[5]), IIN_MAX as nat)
    &&& opt_field(info.cin) == short_value(object_in(ev[6]), CIN_MAX as nat)
    &&& opt_field(info.card_image_number) == opt_field(info.cin)
    &&& info.jc_platform_version is None
    &&& info.privilege_encoding == encoding_for(cplc_content(object_or_empty(ev[7])))
    &&& info.quirks_detected@.len() == 0
    &&& info.discovery_warnings@ == missing_objects(ev)
}

/// What a discovery did and found: the exchanges in their order, as far as none
/// of them ends it, and the card's description where none does.
pub open spec fn discovery(
    ev: Seq<Exchange>,
    expected: Option<Seq<u8>>,
    r: Result<CardInfo, ScllError>,
) -> bool {
    &&& 1 <= ev.len() <= 8
    &&& forall|i: int| 0 <= i < ev.len() ==> is_discovery_exchange(#[trigger] ev[i], i, expected)
    &&& forall|i: int|
        0 <= i < ev.len() - 1 ==> discovery_failure(#[trigger] ev[i], i, expected) is None
    &&& match discovery_failure(ev.last(), ev.len() - 1, expected) {
        Some(e) => fails_with(r, e),
        None => ev.len() == 8 && (r matches Ok(info) && discovered(info, ev, expected)),
    }
}

/// A discovery changes nothing on the card: after the reset it only selects and
/// reads.
pub proof fn law_discovery_only_reads(
    ev: Seq<Exchange>,
    expected: Option<Seq<u8>>,
    r: Result<CardInfo, ScllError>,
    i: int,
)
    requires
        discovery(ev, expected, r),
        0 < i < ev.len(),
    ensures
        ev[i] matches Exchange::Apdu { command, reply } && (command[1] == 0xA4 || command[1]
            == 0xCA),
{
    assert(is_discovery_exchange(ev[i], i, expected));
}

/// An object that the card does not have never ends a discovery.
pub proof fn law_missing_objects_are_no_failure(
    x: Exchange,
    i: int,
    expected: Option<Seq<u8>>,
)
    requires
        i >= 2,
        answer_of(x) matches Ok(a) && a.sw == SW_REF_NOT_FOUND,
    ensures
        discovery_failure(x, i, expected) is None,
        object_in(x) is None,
{
}

/// A card always has a channel to open: where it advertises none, one is taken
/// for granted.
pub proof fn law_some_channel_is_supported(
    ev: Seq<Exchange>,
    expected: Option<Seq<u8>>,
    info: CardInfo,
)
    requires
        discovery(ev, expected, Ok(info)),
    ensures
        info.scp_supported@.len() > 0,
        info.scp_default == info.scp_supported@[0],
{
}

/// Exactly these exchanges happened.
pub open spec fn happened(before: Seq<Exchange>, after: Seq<Exchange>, ev: Seq<Exchange>) -> bool {
    after == before + ev
}

/// The exchanges so far, none of which ends the discovery.
spec fn going(ev: Seq<Exchange>, expected: Option<Seq<u8>>) -> bool {
    &&& forall|i: int| 0 <= i < ev.len() ==> is_discovery_exchange(#[trigger] ev[i], i, expected)
    &&& forall|i: int|
        0 <= i < ev.len() ==> discovery_failure(#[trigger] ev[i], i, expected) is None
}

/// The content of an optional object.
pub open spec fn opt_rapdu(data: Option<Rapdu>) -> Option<Seq<u8>> {
    match data {
        Some(d) => Some(rapdu_bytes(d)),
        None => None,
    }
}

/// The bytes of an optional object, or none.
fn bytes_of(data: &Option<Rapdu>) -> (r: &[u8])
    ensures
        r@ == (match *data {
            Some(d) => rapdu_bytes(d),
            None => Seq::empty(),
        }),
{
    match data {
        Some(d) => rapdu_slice(d),
        None => {
            let none: &[u8] = &[];
            assert(none@ =~= Seq::empty());
            none
        },
    }
}

/// An optional value of at most 16 bytes.
fn copy_opt(data: &Option<Rapdu>) -> (r: Option<Field>)
    ensures
        opt_field(r) == short_value(opt_rapdu(*data), 16),
{
    match data {
        Some(d) => match field_from_slice(rapdu_slice(d)) {
            Ok(f) => Some(f),
            Err(_) => None,
        },
        None => None,
    }
}

/// The exchanges went on by one.
spec fn went_on(ev: Seq<Exchange>, more: Seq<Exchange>) -> bool {
    &&& more.len() == ev.len() + 1
    &&& forall|i: int| 0 <= i < ev.len() ==> #[trigger] more[i] == ev[i]
}

/// Asks for one more object of the card.
fn ask<T: Transport>(
    t: &mut T,
    tag: u16,
    before: Ghost<Seq<Exchange>>,
    ev: Ghost<Seq<Exchange>>,
    expected: Ghost<Option<Seq<u8>>>,
) -> (r: (Result<Option<Rapdu>, ScllError>, Ghost<Seq<Exchange>>))
    requires
        happened(before@, old(t).history(), ev@),
        going(ev@, expected@),
        2 <= ev@.len() < 8,
        tag == asked_object(ev@.len() as int),
    ensures
        happened(before@, final(t).history(), r.1@),
        went_on(ev@, r.1@),
        forall|i: int|
            0 <= i < r.1@.len() ==> is_discovery_exchange(#[trigger] r.1@[i], i, expected@),
        forall|i: int|
            0 <= i < ev@.len() ==> discovery_failure(#[trigger] r.1@[i], i, expected@) is None,
        optional_view(r.0) == optional_data(answer_of(r.1@.last())),
        r.0 matches Err(e) ==> discovery(r.1@, expected@, Err(e)),
{
    let ghost h0 = t.history();
    let data = optional_get_data(t, tag);
    let ghost reply = choose|reply: Result<Seq<u8>, TransportError>| #[trigger]
        sent(h0, t.history(), data_command(tag), reply) && optional_view(data) == optional_data(
            plain_outcome(reply),
        );
    let ghost x = Exchange::Apdu { command: data_command(tag), reply };
    let ghost more = ev@.push(x);
    proof {
        assert(sent(h0, t.history(), data_command(tag), reply));
        assert(t.history() =~= before@ + more);
        assert(more.last() == x);
        assert forall|i: int| 0 <= i < more.len() implies is_discovery_exchange(
            #[trigger] more[i],
            i,
            expected@,
        ) by {
            if i < ev@.len() {
                assert(more[i] == ev@[i]);
            }
        }
        assert forall|i: int| 0 <= i < ev@.len() implies discovery_failure(
            #[trigger] more[i],
            i,
            expected@,
        ) is None by {
            assert(more[i] == ev@[i]);
        }
    }
    (data, Ghost(more))
}

/// Resets the card and finds the issuer security domain.
fn identify<T: Transport>(t: &mut T, expected_isd_aid: Option<&[u8]>) -> (r: (
    Result<(AtrAts, Aid), ScllError>,
    Ghost<Seq<Exchange>>,
))
    ensures
        happened(old(t).history(), final(t).history(), r.1@),
        match r.0 {
            Err(e) => discovery(r.1@, opt_bytes(expected_isd_aid), Err(e)),
            Ok((atr, isd)) => {
                &&& r.1@.len() == 2
                &&& going(r.1@, opt_bytes(expected_isd_aid))
                &&& r.1@[0] == (Exchange::Reset { answer: Ok(atr) })
                &&& Ok::<Seq<u8>, ScllError>(isd@) == issuer_aid(
                    opt_bytes(expected_isd_aid),
                    select_outcome(answer_of(r.1@[1]))->Ok_0,
                )
            },
        },
{
    let ghost h0 = t.history();
    let reset = t.reset();
    let ghost x0 = Exchange::Reset { answer: reset };
    let ghost ev0 = seq![x0];
    proof {
        assert(t.history() =~= h0 + ev0);
        assert(ev0.last() == x0);
    }
    let atr: AtrAts = match reset {
        Ok(a) => a,
        Err(e) => return (Err(map_transport(&e)), Ghost(ev0)),
    };
    let none: &[u8] = &[];
    assert(none@ =~= Seq::empty());
    let aid: &[u8] = match expected_isd_aid {
        Some(e) => e,
        None => none,
    };
    let ghost h1 = t.history();
    let selected = select(t, aid);
    let ghost reply1 = choose|reply: Result<Seq<u8>, TransportError>| #[trigger]
        sent(h1, t.history(), select_command(aid@), reply) && response_view(selected)
            == select_outcome(plain_outcome(reply));
    let ghost x1 = Exchange::Apdu { command: select_command(aid@), reply: reply1 };
    let ghost ev1 = ev0.push(x1);
    proof {
        if aid@.len() <= 255 {
            assert(sent(h1, t.history(), select_command(aid@), reply1));
            assert(t.history() =~= h0 + ev1);
            assert(ev1.last() == x1);
        }
    }
    let fci: Rapdu = match selected {
        Ok(f) => f,
        Err(e) => {
            let ghost ev = if aid@.len() > 255 {
                ev0
            } else {
                ev1
            };
            return (Err(e), Ghost(ev));
        },
    };
    match resolve_isd_aid(expected_isd_aid, rapdu_slice(&fci)) {
        Ok(isd) => (Ok((atr, isd)), Ghost(ev1)),
        Err(e) => (Err(e), Ghost(ev1)),
    }
}

/// Asks for the card recognition data.
fn ask_recognition<T: Transport>(
    t: &mut T,
    before: Ghost<Seq<Exchange>>,
    ev: Ghost<Seq<Exchange>>,
    expected: Ghost<Option<Seq<u8>>>,
) -> (r: (Result<(Vec<u8>, Vec<ScpVariant>), ScllError>, Ghost<Seq<Exchange>>))
    requires
        happened(before@, old(t).history(), ev@),
        going(ev@, expected@),
        ev@.len() == 2,
    ensures
        happened(before@, final(t).history(), r.1@),
        went_on(ev@, r.1@),
        match r.0 {
            Err(e) => discovery(r.1@, expected@, Err(e)),
            Ok((raw, scp)) => {
                &&& going(r.1@, expected@)
                &&& raw@ == at_most(object_or_empty(r.1@[2]), GETDATA_RAW_MAX as int)
                &&& scp@ == advertised(r.1@[2])
            },
        },
{
    let (crd, Ghost(more)) = ask(t, TAG_CRD, before, ev, expected);
    let crd: Option<Rapdu> = match crd {
        Ok(d) => d,
        Err(e) => return (Err(e), Ghost(more)),
    };
    let bytes: &[u8] = bytes_of(&crd);
    match parse_card_recognition(bytes) {
        Ok(c) => (Ok((take_at_most(bytes, GETDATA_RAW_MAX), c.scp)), Ghost(more)),
        Err(e) => (Err(ScllError::MalformedResponse(e)), Ghost(more)),
    }
}

/// Asks for the key information template; also says whether it is missing.
fn ask_keys<T: Transport>(
    t: &mut T,
    before: Ghost<Seq<Exchange>>,
    ev: Ghost<Seq<Exchange>>,
    expected: Ghost<Option<Seq<u8>>>,
) -> (r: (Result<(KeyInformation, bool), ScllError>, Ghost<Seq<Exchange>>))
    requires
        happened(before@, old(t).history(), ev@),
        going(ev@, expected@),
        ev@.len() == 3,
    ensures
        happened(before@, final(t).history(), r.1@),
        went_on(ev@, r.1@),
        match r.0 {
            Err(e) => discovery(r.1@, expected@, Err(e)),
            Ok((keys, missing)) => {
                &&& going(r.1@, expected@)
                &&& missing == (object_in(r.1@[3]) is None)
                &&& (keys.format, keyset_views(keys.keysets@)) == key_information(
                    object_or_empty(r.1@[3]),
                )->Ok_0
            },
        },
{
    let (kit, Ghost(more)) = ask(t, TAG_KIT, before, ev, expected);
    let kit: Option<Rapdu> = match kit {
        Ok(d) => d,
        Err(e) => return (Err(e), Ghost(more)),
    };
    match parse_key_information(bytes_of(&kit)) {
        Ok(k) => (Ok((k, kit.is_none())), Ghost(more)),
        Err(e) => (Err(ScllError::MalformedResponse(e)), Ghost(more)),
    }
}

/// Asks for the card capability information; also says whether it is missing.
fn ask_capabilities<T: Transport>(
    t: &mut T,
    before: Ghost<Seq<Exchange>>,
    ev: Ghost<Seq<Exchange>>,
    expected: Ghost<Option<Seq<u8>>>,
) -> (r: (Result<(CardCapabilities, bool), ScllError>, Ghost<Seq<Exchange>>))
    requires
        happened(before@, old(t).history(), ev@),
        going(ev@, expected@),
        ev@.len() == 4,
    ensures
        happened(before@, final(t).history(), r.1@),
        went_on(ev@, r.1@),
        match r.0 {
            Err(e) => discovery(r.1@, expected@, Err(e)),
            Ok((capabilities, missing)) => {
                &&& going(r.1@, expected@)
                &&& missing == (object_in(r.1@[4]) is None)
                &&& capabilities_read(Ok(capabilities), object_or_empty(r.1@[4]))
            },
        },
{
    let (cci, Ghost(more)) = ask(t, TAG_CCI, before, ev, expected);
    let cci: Option<Rapdu> = match cci {
        Ok(d) => d,
        Err(e) => return (Err(e), Ghost(more)),
    };
    match parse_card_capabilities(bytes_of(&cci)) {
        Ok(c) => (Ok((c, cci.is_none())), Ghost(more)),
        Err(e) => (Err(ScllError::MalformedResponse(e)), Ghost(more)),
    }
}

/// Asks for one of the last three objects, which are taken as they are.
fn ask_plain<T: Transport>(
    t: &mut T,
    tag: u16,
    before: Ghost<Seq<Exchange>>,
    ev: Ghost<Seq<Exchange>>,
    expected: Ghost<Option<Seq<u8>>>,
) -> (r: (Result<Option<Rapdu>, ScllError>, Ghost<Seq<Exchange>>))
    requires
        happened(before@, old(t).history(), ev@),
        going(ev@, expected@),
        5 <= ev@.len() < 8,
        tag == asked_object(ev@.len() as int),
    ensures
        happened(before@, final(t).history(), r.1@),
        went_on(ev@, r.1@),
        match r.0 {
            Err(e) => discovery(r.1@, expected@, Err(e)),
            Ok(data) => {
                &&& going(r.1@, expected@)
                &&& object_in(r.1@.last()) == opt_rapdu(data)
            },
        },
{
    ask(t, tag, before, ev, expected)
}

/// Reads what a card tells of itself: resets it, selects the issuer security
/// domain and asks for six objects. An object that is not there is a remark and
/// no failure.
pub fn discover_card<T: Transport>(t: &mut T, expected_isd_aid: Option<&[u8]>) -> (r: Result<
    CardInfo,
    ScllError,
>)
    ensures
        exists|ev: Seq<Exchange>| #[trigger]
            happened(old(t).history(), final(t).history(), ev) && discovery(
                ev,
                opt_bytes(expected_isd_aid),
                r,
            ),
{
    let ghost h0 = t.history();
    let ghost expected = opt_bytes(expected_isd_aid);
    let (identity, Ghost(ev1)) = identify(t, expected_isd_aid);
    let (atr, isd_aid) = identity?;

    let (crd, Ghost(ev2)) = ask_recognition(t, Ghost(h0), Ghost(ev1), Ghost(expected));
    let (card_recognition_data_raw, mut scp_supported) = crd?;
    let mut warnings: Vec<DiscoveryWarning> = Vec::new();
    if scp_supported.len() == 0 {
        warnings.push(DiscoveryWarning::CardRecognitionDataMissing);
        scp_supported.push(ScpVariant::Scp02 { i_param: 0x55 });
    }
    let scp_default: ScpVariant = scp_supported[0];
    assert(scp_supported@ =~= supported(ev2[2]));

    let (kit, Ghost(ev3)) = ask_keys(t, Ghost(h0), Ghost(ev2), Ghost(expected));
    let (keys, kit_missing) = kit?;
    if kit_missing {
        warnings.push(DiscoveryWarning::KeyInformationTemplateMissing);
    }

    let (cci, Ghost(ev4)) = ask_capabilities(t, Ghost(h0), Ghost(ev3), Ghost(expected));
    let (capabilities, cci_missing) = cci?;
    if cci_missing {
        warnings.push(DiscoveryWarning::CardCapabilityInfoMissing);
    }

    let (iin, Ghost(ev5)) = ask_plain(t, TAG_IIN, Ghost(h0), Ghost(ev4), Ghost(expected));
    let iin: Option<Field> = copy_opt(&iin?);
    let (cin, Ghost(ev6)) = ask_plain(t, TAG_CIN, Ghost(h0), Ghost(ev5), Ghost(expected));
    let cin_data: Option<Rapdu> = cin?;
    let cin: Option<Field> = copy_opt(&cin_data);
    let card_image_number: Option<Field> = copy_opt(&cin_data);
    let (cplc, Ghost(ev7)) = ask_plain(t, TAG_CPLC, Ghost(h0), Ghost(ev6), Ghost(expected));
    let cplc: Option<Rapdu> = cplc?;
    let privilege_encoding: PrivLen = priv_len_from_cplc(cplc_value(bytes_of(&cplc)));
    proof {
        assert(ev7[0] == ev1[0]);
        assert(ev7[1] == ev1[1]);
        assert(ev7[2] == ev2[2]);
        assert(ev7[3] == ev3[3]);
        assert(ev7[4] == ev4[4]);
        assert(ev7[5] == ev5[5]);
        assert(ev7[6] == ev6[6]);
        assert(warnings@ =~= missing_objects(ev7));
    }
    let info: CardInfo = CardInfo {
        isd_aid,
        atr_or_ats: atr.bytes,
        transport_protocol: atr.protocol,
        scp_supported,
        scp_default,
        isd_keysets: keys.keysets,
        isd_key_template_format: keys.format,
        capabilities,
        card_recognition_data_raw,
        iin,
        cin,
        card_image_number,
        jc_platform_version: None,
        privilege_encoding,
        quirks_detected: Vec::new(),
        discovery_warnings: warnings,
    };
    assert(discovered(info, ev7, expected));
    assert(discovery(ev7, expected, Ok(info)));
    Ok(info)
}

} // verus!
