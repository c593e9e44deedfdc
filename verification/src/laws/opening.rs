//! Opening a secure channel, octet by octet and call by call.
use vstd::prelude::*;

use crate::backend::{Event, KeyHandle, ScpMode};
use crate::error::ScllError;
use crate::model::ScpVariant;
use crate::report::OpenScpReport;
use crate::scp::{first_scp02, highest_scp03, selected, usable_scp03, ScpSession};
use crate::scp::scp02::{self, Scp02Channel};
use crate::scp::scp03::{self, Scp03Channel};
use crate::transport::Exchange;
use crate::workflow::open_scp::{
    authenticated, challenge_len, invoker, opened, reply_in, set_up, update_command, OpenScpArgs,
};
use crate::workflow::session::{df_name, select_outcome, Answer};

verus! {

// ---- Choice of the protocol ------------------------------------------------

/// The option bytes of SCP03 that the library implements.
pub open spec fn is_implemented(i_param: u8) -> bool {
    ||| i_param == 0x00
    ||| i_param == 0x08
    ||| i_param == 0x10
    ||| i_param == 0x18
    ||| i_param == 0x20
    ||| i_param == 0x28
    ||| i_param == 0x30
    ||| i_param == 0x38
    ||| i_param == 0x60
    ||| i_param == 0x68
    ||| i_param == 0x70
    ||| i_param == 0x78
}

/// Which option bytes those are; the mode is S16 exactly where bit 8 is set.
pub proof fn law_option_bytes(i_param: u8)
    ensures
        scp03::option_in_scope(i_param) <==> is_implemented(i_param),
        ScpMode::of(i_param) is S16 <==> i_param & 0x08 != 0,
        ScpMode::S8.width() == 8,
        ScpMode::S16.width() == 16,
{
    assert(i_param & 0x87 == 0 && (i_param & 0x40 != 0 ==> i_param & 0x20 != 0) <==> (i_param
        == 0x00 || i_param == 0x08 || i_param == 0x10 || i_param == 0x18 || i_param == 0x20
        || i_param == 0x28 || i_param == 0x30 || i_param == 0x38 || i_param == 0x60 || i_param
        == 0x68 || i_param == 0x70 || i_param == 0x78)) by (bit_vector);
}

/// Of what a card advertises the SCP03 variant with the highest implemented option byte
/// is chosen; where there is none, the first SCP02 variant; where there is none either,
/// nothing. A caller's choice wins over all of them.
pub proof fn law_choice_of_protocol(advertised: Seq<ScpVariant>, force: Option<ScpVariant>, k: int)
    ensures
        force is Some ==> selected(advertised, force) == force,
        force is None && (selected(advertised, force) matches Some(
            ScpVariant::Scp03 { i_param },
        )) ==> advertised.contains(selected(advertised, force)->Some_0) && is_implemented(
            selected(advertised, force)->Some_0->Scp03_i_param,
        ),
        force is None && 0 <= k < advertised.len() && (advertised[k] is Scp03) && is_implemented(
            advertised[k]->Scp03_i_param,
        ) ==> selected(advertised, force) is Some && selected(advertised, force)->Some_0 is Scp03
            && advertised[k]->Scp03_i_param <= selected(
            advertised,
            force,
        )->Some_0->Scp03_i_param,
        force is None && (selected(advertised, force) matches Some(ScpVariant::Scp02 { .. })) ==> (
        0 <= k < advertised.len() && advertised[k] is Scp02 && (forall|j: int|
            0 <= j < k ==> !((#[trigger] advertised[j]) is Scp02)) ==> selected(advertised, force)
            == Some(advertised[k])),
        force is None && selected(advertised, force) is None ==> (0 <= k < advertised.len()
            ==> !(advertised[k] is Scp02)),
{
    lemma_highest(advertised);
    lemma_first(advertised, k);
    if 0 <= k < advertised.len() && advertised[k] is Scp03 {
        law_option_bytes(advertised[k]->Scp03_i_param);
        assert(is_implemented(advertised[k]->Scp03_i_param) ==> usable_scp03(advertised[k])
            is Some);
    }
    if let Some(h) = highest_scp03(advertised) {
        law_option_bytes(h);
    }
}

proof fn lemma_highest(advertised: Seq<ScpVariant>)
    ensures
        highest_scp03(advertised) matches Some(h) ==> advertised.contains(
            ScpVariant::Scp03 { i_param: h },
        ) && scp03::option_in_scope(h),
        forall|i: int|
            0 <= i < advertised.len() ==> (usable_scp03(#[trigger] advertised[i]) matches Some(o)
                ==> (highest_scp03(advertised) matches Some(h) && o <= h)),
    decreases advertised.len(),
{
    if advertised.len() > 0 {
        let init = advertised.drop_last();
        lemma_highest(init);
        let last = advertised.len() - 1;
        if let Some(h) = highest_scp03(advertised) {
            let v = ScpVariant::Scp03 { i_param: h };
            if usable_scp03(advertised[last]) == Some(h) {
                assert(advertised[last] == v);
            } else {
                let i = choose|i: int| 0 <= i < init.len() && init[i] == v;
                assert(advertised[i] == v);
            }
        }
        assert forall|i: int| 0 <= i < advertised.len() implies (usable_scp03(
            #[trigger] advertised[i],
        ) matches Some(o) ==> (highest_scp03(advertised) matches Some(h) && o <= h)) by {
            if i < last {
                assert(init[i] == advertised[i]);
            }
        }
    }
}

proof fn lemma_first(advertised: Seq<ScpVariant>, k: int)
    ensures
        0 <= k < advertised.len() && advertised[k] is Scp02 && (forall|j: int|
            0 <= j < k ==> !((#[trigger] advertised[j]) is Scp02)) ==> first_scp02(advertised)
            == Some(advertised[k]),
        first_scp02(advertised) is None && 0 <= k < advertised.len() ==> !(advertised[k] is Scp02),
        first_scp02(advertised) matches Some(v) ==> v is Scp02,
    decreases advertised.len(),
{
    if advertised.len() > 0 && !(advertised[0] is Scp02) {
        let rest = advertised.skip(1);
        lemma_first(rest, k - 1);
        if 0 < k < advertised.len() {
            assert(rest[k - 1] == advertised[k]);
            if forall|j: int| 0 <= j < k ==> !((#[trigger] advertised[j]) is Scp02) {
                assert forall|j: int| 0 <= j < k - 1 implies !((#[trigger] rest[j]) is Scp02) by {
                    assert(!(advertised[j + 1] is Scp02));
                }
            }
        }
    } else if advertised.len() > 0 && k > 0 {
        if forall|j: int| 0 <= j < k ==> !((#[trigger] advertised[j]) is Scp02) {
            assert(!(advertised[0] is Scp02));
        }
    }
}

// ---- Levels ----------------------------------------------------------------

/// The level of an SCP03 channel, bit by bit: command MAC and encryption as requested,
/// response MAC where the option byte has `20` and response encryption where it has `40`.
/// Where nothing is left no channel is opened.
pub proof fn law_level_03(i_param: u8, requested: u8)
    ensures
        match scp03::capped_level(i_param, requested) {
            Ok(level) => {
                &&& level & 0x01 == requested & 0x01
                &&& level & 0x02 == requested & 0x02
                &&& level & 0x10 == (if i_param & 0x20 != 0 {
                    requested & 0x10
                } else {
                    0
                })
                &&& level & 0x20 == (if i_param & 0x40 != 0 {
                    requested & 0x20
                } else {
                    0
                })
                &&& level & 0xCC == 0
                &&& level != 0
            },
            Err(e) => {
                &&& e == ScllError::NoCommonSecurityLevel
                &&& requested & 0x03 == 0
                &&& i_param & 0x20 != 0 ==> requested & 0x10 == 0
                &&& i_param & 0x40 != 0 ==> requested & 0x20 == 0
            },
        },
{
    let allowed = scp03::allowed_level(i_param);
    let m: u8 = if i_param & 0x20 != 0 {
        0x10
    } else {
        0
    };
    let e: u8 = if i_param & 0x40 != 0 {
        0x20
    } else {
        0
    };
    let level = requested & allowed;
    assert(level == requested & (0x03u8 | m | e));
    assert(level == requested & (0x03u8 | m | e) && (m == 0 || m == 0x10) && (e == 0 || e == 0x20)
        ==> level & 0x01 == requested & 0x01 && level & 0x02 == requested & 0x02 && (level & 0x10
        == requested & m) && (level & 0x20 == requested & e) && level & 0xCC == 0) by (bit_vector);
    assert(requested & 0u8 == 0) by (bit_vector);
    assert(level == requested & (0x03u8 | m | e) && level == 0 ==> requested & 0x03 == 0
        && requested & m == 0 && requested & e == 0) by (bit_vector);
}

/// The level of an SCP02 channel, bit by bit: command MAC and encryption as requested, a
/// response MAC under the option bytes `15` and `55`, and nothing else.
pub proof fn law_level_02(i_param: u8, requested: u8)
    ensures
        match scp02::capped_level(i_param, requested) {
            Ok(level) => {
                &&& level & 0x01 == requested & 0x01
                &&& level & 0x02 == requested & 0x02
                &&& level & 0x10 == (if i_param == 0x15 || i_param == 0x55 {
                    requested & 0x10
                } else {
                    0
                })
                &&& level & 0xEC == 0
                &&& level != 0
            },
            Err(e) => {
                &&& e == ScllError::NoCommonSecurityLevel
                &&& requested & 0x03 == 0
                &&& i_param == 0x15 || i_param == 0x55 ==> requested & 0x10 == 0
            },
        },
{
    assert((requested & 0x13) & 0x01 == requested & 0x01 && (requested & 0x13) & 0x02 == requested
        & 0x02 && (requested & 0x13) & 0x10 == requested & 0x10 && (requested & 0x13) & 0xEC == 0
        && (requested & 0x03) & 0x01 == requested & 0x01 && (requested & 0x03) & 0x02 == requested
        & 0x02 && (requested & 0x03) & 0x10 == 0 && (requested & 0x03) & 0xEC == 0 && (requested
        & 0x13 == 0 ==> requested & 0x03 == 0 && requested & 0x10 == 0)) by (bit_vector);
}

// ---- Commands and answers --------------------------------------------------

/// INITIALIZE UPDATE: `80 50`, the key version, `00`, the length of the challenge, the
/// challenge, and `00`.
pub proof fn law_initialize_update(variant: ScpVariant, kvn: u8, host: Seq<u8>)
    requires
        host.len() == challenge_len(variant),
    ensures
        ({
            let s = update_command(variant, kvn, host);
            &&& s.len() == 6 + host.len()
            &&& s[0] == 0x80 && s[1] == 0x50 && s[2] == kvn && s[3] == 0x00
            &&& s[4] == host.len()
            &&& s.subrange(5, 5 + host.len() as int) == host
            &&& s.last() == 0x00
        }),
        variant is Scp02 ==> host.len() == 8,
        variant matches ScpVariant::Scp03 { i_param } ==> host.len() == (if i_param & 0x08 != 0 {
            16int
        } else {
            8
        }),
{
    let s = update_command(variant, kvn, host);
    if let ScpVariant::Scp03 { i_param } = variant {
        law_option_bytes(i_param);
    }
    assert(s.subrange(5, 5 + host.len() as int) =~= host);
}

/// EXTERNAL AUTHENTICATE before it is protected: `84 82`, the level, `00`, the length of
/// the cryptogram, and the cryptogram.
pub proof fn law_external_authenticate(level: u8, cryptogram: Seq<u8>)
    requires
        cryptogram.len() <= 255,
    ensures
        ({
            let s = scp03::external_authenticate(level, cryptogram);
            &&& s.len() == 5 + cryptogram.len()
            &&& s[0] == 0x84 && s[1] == 0x82 && s[2] == level && s[3] == 0x00
            &&& s[4] == cryptogram.len()
            &&& s.skip(5) == cryptogram
        }),
{
    assert(scp03::external_authenticate(level, cryptogram).skip(5) =~= cryptogram);
}

/// An answer to INITIALIZE UPDATE under SCP03: the key version at 10, the protocol at 11,
/// the option byte at 12; then the challenge and the cryptogram, eight octets each, or
/// sixteen where the option byte has `08`; and where it has `10` a counter of three.
pub proof fn law_update_answer_03(s: Seq<u8>)
    ensures
        ({
            let w = if s[12] & 0x08 != 0 {
                16int
            } else {
                8
            };
            let n = 13 + 2 * w + (if s[12] & 0x10 != 0 {
                3int
            } else {
                0
            });
            let good = s.len() >= 13 && s[11] == 0x03 && is_implemented(s[12]) && s.len() == n;
            match scp03::iu_fields(s) {
                Ok(iu) => {
                    &&& good
                    &&& iu.kvn == s[10]
                    &&& iu.i_param == s[12]
                    &&& iu.mode is S16 <==> s[12] & 0x08 != 0
                    &&& iu.card_challenge == s.subrange(13, 13 + w)
                    &&& iu.card_cryptogram == s.subrange(13 + w, 13 + 2 * w)
                    &&& s[12] & 0x10 == 0 ==> iu.sequence_counter is None
                    &&& s[12] & 0x10 != 0 ==> iu.sequence_counter == Some(
                        s.subrange(13 + 2 * w, 13 + 2 * w + 3),
                    )
                },
                Err(e) => !good && (e == ScllError::NoCommonSecurityLevel || e
                    == ScllError::ScpProtocolUnsupported),
            }
        }),
{
    law_option_bytes(s[12]);
}

/// An answer to INITIALIZE UPDATE under SCP02 has 28 octets: the key version at 10, the
/// protocol at 11, a counter of two, a challenge of six and a cryptogram of eight.
pub proof fn law_update_answer_02(s: Seq<u8>)
    ensures
        match scp02::iu_fields(s) {
            Ok(iu) => {
                &&& s.len() == 28 && s[11] == 0x02
                &&& iu.kvn == s[10]
                &&& iu.seq_counter == s.subrange(12, 14)
                &&& iu.card_challenge == s.subrange(14, 20)
                &&& iu.card_cryptogram == s.subrange(20, 28)
            },
            Err(e) => !(s.len() == 28 && s[11] == 0x02) && e == ScllError::ScpProtocolUnsupported,
        },
{
}

/// The identifier that the card computes with is the one in its answer to SELECT, where
/// that names one of 5 to 16 octets, and otherwise the selected one.
pub proof fn law_invoker(fci: Seq<u8>, target: Seq<u8>, name: Seq<u8>)
    ensures
        df_name(fci) == Ok::<Option<Seq<u8>>, crate::tlv::TlvError>(Some(name)) && 5 <= name.len()
            <= 16 ==> invoker(fci, target) == name,
        df_name(fci) == Ok::<Option<Seq<u8>>, crate::tlv::TlvError>(Some(name)) && !(5
            <= name.len() <= 16) ==> invoker(fci, target) == target,
        df_name(fci) == Ok::<Option<Seq<u8>>, crate::tlv::TlvError>(None) ==> invoker(fci, target)
            == target,
        df_name(fci) is Err ==> invoker(fci, target) == target,
{
}

// ---- The calls -------------------------------------------------------------

/// How an SCP03 channel came about: the session is derived from the encryption and the
/// MAC key over the host's challenge and the card's; the card's cryptogram is what the
/// backend makes of them; where the card counts, its challenge is what the backend makes
/// of the counter and the identifier under the encryption key; and EXTERNAL AUTHENTICATE
/// carries the level and the host's cryptogram. The channel has the card's key version
/// and option byte, and that level.
pub proof fn law_opened_03(
    ev: Seq<Event>,
    enc: KeyHandle,
    mac: KeyHandle,
    kvn_expected: u8,
    requested: u8,
    host: Seq<u8>,
    aid: Seq<u8>,
    s: Seq<u8>,
    r: Result<(Scp03Channel, Seq<u8>), ScllError>,
)
    requires
        scp03::begun03(ev, enc, mac, kvn_expected, requested, host, aid, s, r),
        r is Ok,
    ensures
        ({
            let w = if s[12] & 0x08 != 0 {
                16int
            } else {
                8
            };
            let mode = if s[12] & 0x08 != 0 {
                ScpMode::S16
            } else {
                ScpMode::S8
            };
            let challenge = s.subrange(13, 13 + w);
            let counts = s[12] & 0x10 != 0;
            let n = if counts {
                3int
            } else {
                2
            };
            let (channel, ea) = r->Ok_0;
            let session = ev[1]->CardCryptogram03_session;
            let cryptogram = ev[n]->HostCryptogram03_result->Ok_0;
            &&& ev.len() == n + 2
            &&& kvn_expected != 0 ==> s[10] == kvn_expected
            &&& ev[0] == (Event::Derive03 {
                enc,
                mac,
                mode,
                host,
                card: challenge,
                result: Ok(session),
            })
            &&& ev[1] == (Event::CardCryptogram03 {
                session,
                host,
                card: challenge,
                result: Ok(s.subrange(13 + w, 13 + 2 * w)),
            })
            &&& counts ==> ev[2] == (Event::CardChallenge03 {
                enc,
                mode,
                counter: s.subrange(13 + 2 * w, 16 + 2 * w),
                aid,
                result: Ok(challenge),
            })
            &&& ev[n] == (Event::HostCryptogram03 {
                session,
                host,
                card: challenge,
                result: Ok(cryptogram),
            })
            &&& ev[n + 1] == (Event::Wrap03 {
                session,
                after: channel.session,
                command: scp03::external_authenticate(channel.security_level, cryptogram),
                result: Ok(ea),
            })
            &&& channel.kvn == s[10]
            &&& channel.i_param == s[12]
            &&& scp03::capped_level(s[12], requested) == Ok::<u8, ScllError>(channel.security_level)
        }),
{
    law_update_answer_03(s);
}

/// A card that gives a wrong cryptogram, or, where it counts, a wrong challenge, is not
/// authenticated to: the channel is refused and the host's cryptogram is not even made. So
/// it is where the card used another key version than the one that was asked for.
pub proof fn law_wrong_card_is_refused_03(
    ev: Seq<Event>,
    enc: KeyHandle,
    mac: KeyHandle,
    kvn_expected: u8,
    requested: u8,
    host: Seq<u8>,
    aid: Seq<u8>,
    s: Seq<u8>,
    r: Result<(Scp03Channel, Seq<u8>), ScllError>,
    i: int,
)
    requires
        scp03::begun03(ev, enc, mac, kvn_expected, requested, host, aid, s, r),
        scp03::iu_fields(s) is Ok,
    ensures
        kvn_expected != 0 && s[10] != kvn_expected ==> r == Err::<
            (Scp03Channel, Seq<u8>),
            ScllError,
        >(ScllError::KvnMismatch) && ev.len() == 0,
        0 <= i < ev.len() ==> {
            let w = if s[12] & 0x08 != 0 {
                16int
            } else {
                8
            };
            &&& (ev[i] matches Event::CardCryptogram03 { result: Ok(c), .. } && c != s.subrange(
                13 + w,
                13 + 2 * w,
            )) ==> r == Err::<(Scp03Channel, Seq<u8>), ScllError>(ScllError::CardCryptogramFail)
                && ev.len() == i + 1
            &&& (ev[i] matches Event::CardChallenge03 { result: Ok(c), .. } && c != s.subrange(
                13,
                13 + w,
            )) ==> r == Err::<(Scp03Channel, Seq<u8>), ScllError>(ScllError::CardChallengeFail)
                && ev.len() == i + 1
        },
{
    law_update_answer_03(s);
}

/// How an SCP02 channel came about: the session is derived from the three keys and the
/// card's counter; the card's cryptogram is what the backend makes of the host's
/// challenge and the counter with the card's challenge; and EXTERNAL AUTHENTICATE carries
/// the level and the host's cryptogram. The channel has the card's key version, the
/// advertised option byte, and that level.
pub proof fn law_opened_02(
    ev: Seq<Event>,
    enc: KeyHandle,
    mac: KeyHandle,
    dek: KeyHandle,
    i_param: u8,
    kvn_expected: u8,
    requested: u8,
    host: Seq<u8>,
    s: Seq<u8>,
    r: Result<(Scp02Channel, Seq<u8>), ScllError>,
)
    requires
        scp02::begun02(ev, enc, mac, dek, i_param, kvn_expected, requested, host, s, r),
        r is Ok,
    ensures
        ({
            let (channel, ea) = r->Ok_0;
            let session = ev[1]->CardCryptogram02_session;
            let cryptogram = ev[2]->HostCryptogram02_result->Ok_0;
            &&& ev.len() == 4
            &&& kvn_expected != 0 ==> s[10] == kvn_expected
            &&& ev[0] == (Event::Derive02 {
                enc,
                mac,
                dek,
                counter: s.subrange(12, 14),
                result: Ok(session),
            })
            &&& ev[1] == (Event::CardCryptogram02 {
                session,
                host,
                card: s.subrange(12, 20),
                result: Ok(s.subrange(20, 28)),
            })
            &&& ev[2] == (Event::HostCryptogram02 {
                session,
                host,
                card: s.subrange(12, 20),
                result: Ok(cryptogram),
            })
            &&& ev[3] == (Event::Wrap02 {
                session,
                after: channel.session,
                command: scp03::external_authenticate(channel.security_level, cryptogram),
                result: Ok(ea),
            })
            &&& channel.kvn == s[10]
            &&& channel.i_param == i_param
            &&& scp02::capped_level(i_param, requested) == Ok::<u8, ScllError>(
                channel.security_level,
            )
        }),
{
    law_update_answer_02(s);
    assert(s.subrange(12, 14) + s.subrange(14, 20) =~= s.subrange(12, 20));
}

/// A card that gives a wrong cryptogram, or that used another key version than the one
/// that was asked for, is not authenticated to.
pub proof fn law_wrong_card_is_refused_02(
    ev: Seq<Event>,
    enc: KeyHandle,
    mac: KeyHandle,
    dek: KeyHandle,
    i_param: u8,
    kvn_expected: u8,
    requested: u8,
    host: Seq<u8>,
    s: Seq<u8>,
    r: Result<(Scp02Channel, Seq<u8>), ScllError>,
    i: int,
)
    requires
        scp02::begun02(ev, enc, mac, dek, i_param, kvn_expected, requested, host, s, r),
        scp02::iu_fields(s) is Ok,
    ensures
        kvn_expected != 0 && s[10] != kvn_expected ==> r == Err::<
            (Scp02Channel, Seq<u8>),
            ScllError,
        >(ScllError::KvnMismatch) && ev.len() == 0,
        0 <= i < ev.len() && (ev[i] matches Event::CardCryptogram02 { result: Ok(c), .. } && c
            != s.subrange(20, 28)) ==> r == Err::<(Scp02Channel, Seq<u8>), ScllError>(
            ScllError::CardCryptogramFail,
        ) && ev.len() == i + 1,
{
    law_update_answer_02(s);
}

/// What went over the link for an open channel: SELECT of the target, INITIALIZE UPDATE
/// with the requested key version and the challenge that the backend drew, and the
/// protected EXTERNAL AUTHENTICATE; and from which keys, for which identifier and at which
/// level it came about. The report says what the channel is.
pub proof fn law_open_channel(
    r: Result<OpenScpReport, ScllError>,
    args: OpenScpArgs<'_>,
    link: Seq<Exchange>,
    calls: Seq<Event>,
)
    requires
        opened(r, args, link, calls),
        r is Ok,
    ensures
        ({
            let variant = selected(args.advertised@, args.force_scp)->Some_0;
            let host = calls[0]->Random_result->Ok_0;
            let fci = reply_in(link[0])->Ok_0.data;
            let s = reply_in(link[1])->Ok_0.data;
            let aid = invoker(fci, args.target_aid@);
            let e = r->Ok_0.effective;
            &&& selected(args.advertised@, args.force_scp) is Some
            &&& link.len() == 3
            &&& link[0]->Apdu_command == crate::workflow::session::select_command(args.target_aid@)
            &&& calls[0] matches Event::Random { len, result: Ok(_) } && len == challenge_len(
                variant,
            )
            &&& link[1]->Apdu_command == update_command(variant, args.kvn, host)
            &&& reply_in(link[0]) matches Ok(a) && a.sw == 0x9000
            &&& reply_in(link[1]) matches Ok(a) && a.sw == 0x9000
            &&& reply_in(link[2]) matches Ok(a) && a.sw == 0x9000
            &&& e.target_aid@ == args.target_aid@
            &&& e.target_kind == args.target_kind
            &&& e.sd_aid_used_for_keys@ == args.target_aid@
            &&& e.invoker_aid_used@ == aid
            &&& e.kvn_requested == args.kvn
            &&& e.security_level_requested == args.requested_level
            &&& match (variant, r->Ok_0.session) {
                (ScpVariant::Scp03 { .. }, ScpSession::Scp03(st)) => {
                    &&& scp03::begun03(
                        calls.skip(1),
                        args.sd_keys.enc,
                        args.sd_keys.mac,
                        args.kvn,
                        args.requested_level,
                        host,
                        aid,
                        s,
                        Ok((st@, link[2]->Apdu_command)),
                    )
                    &&& e.scp_protocol_effective is Scp03
                    &&& e.kvn_effective == st@.kvn
                    &&& e.i_param_effective == st@.i_param
                    &&& e.security_level_effective == st@.security_level
                    &&& e.session_id == st@.session.0
                },
                (ScpVariant::Scp02 { i_param }, ScpSession::Scp02(st)) => {
                    &&& scp02::begun02(
                        calls.skip(1),
                        args.sd_keys.enc,
                        args.sd_keys.mac,
                        args.sd_keys.dek,
                        i_param,
                        args.kvn,
                        args.requested_level,
                        host,
                        s,
                        Ok((st@, link[2]->Apdu_command)),
                    )
                    &&& e.scp_protocol_effective is Scp02
                    &&& e.kvn_effective == st@.kvn
                    &&& e.i_param_effective == st@.i_param
                    &&& e.security_level_effective == st@.security_level
                    &&& e.session_id == st@.session.0
                },
                _ => false,
            }
        }),
{
    let variant = selected(args.advertised@, args.force_scp)->Some_0;
    let fci = select_outcome(reply_in(link[0]))->Ok_0;
    let aid = invoker(fci, args.target_aid@);
    let host = calls[0]->Random_result->Ok_0;
    let answer = reply_in(link[1])->Ok_0.data;
    let begun = choose|begun: Result<(ScpSession, Seq<u8>), ScllError>| #[trigger]
        set_up(args, variant, host, aid, answer, calls.skip(1), begun) && authenticated(
            r,
            args,
            aid,
            link,
            begun,
        );
    assert(set_up(args, variant, host, aid, answer, calls.skip(1), begun));
}

/// A refused EXTERNAL AUTHENTICATE is a failure that carries the card's status word, and a
/// card that is not trusted gets none.
pub proof fn law_refused_authentication(
    r: Result<OpenScpReport, ScllError>,
    args: OpenScpArgs<'_>,
    aid: Seq<u8>,
    link: Seq<Exchange>,
    begun: Result<(ScpSession, Seq<u8>), ScllError>,
    a: Answer,
)
    requires
        authenticated(r, args, aid, link, begun),
    ensures
        begun matches Err(e) ==> link.len() == 2 && r == Err::<OpenScpReport, ScllError>(e),
        begun is Ok && reply_in(link[2]) == Ok::<Answer, ScllError>(a) && a.sw != 0x9000 ==> r
            == Err::<OpenScpReport, ScllError>(ScllError::ExternalAuthFail { sw: a.sw }),
{
}

} // verus!
