//! Exchanges over a secure channel, from the plain command to the plain answer.
use vstd::prelude::*;

use crate::backend::Event;
use crate::error::{BackendError, ScllError};
use crate::laws::commands::law_short_command;
use crate::laws::octets::{lemma_number_2, number};
use crate::laws::responses::{is_absent, is_first, law_first_object_is_found};
use crate::limits::RAPDU_MAX;
use crate::scp::ScpSession;
use crate::tlv::{tlv_objects, TlvError, TlvObject};
use crate::transport::{Exchange, TransportError};
use crate::workflow::session::{
    df_name, exchanged, lemma_unfold, performed, plain_outcome, select_command, select_outcome,
    selected_app, sent, split, step_outcome, transport_failure, Answer, Moment, Step,
};

verus! {

/// An answer is its data and its status word: the last two octets, as a number. Without
/// them it is the status word zero.
pub proof fn law_status_word_is_split_off(rapdu: Seq<u8>)
    ensures
        rapdu.len() < 2 ==> split(rapdu) == Err::<Answer, ScllError>(ScllError::Card { sw: 0 }),
        2 <= rapdu.len() <= RAPDU_MAX + 2 ==> {
            &&& split(rapdu) is Ok
            &&& split(rapdu)->Ok_0.data == rapdu.subrange(0, rapdu.len() - 2)
            &&& split(rapdu)->Ok_0.sw == number(rapdu.skip(rapdu.len() - 2))
        },
        rapdu.len() > RAPDU_MAX + 2 ==> split(rapdu) is Err,
{
    if rapdu.len() >= 2 {
        let n = rapdu.len() - 2;
        lemma_number_2(rapdu.skip(n));
        assert(rapdu.take(n) =~= rapdu.subrange(0, n));
    }
}

/// The error of each failure of a link.
pub proof fn law_link_failures(e: TransportError)
    ensures
        e is CardRemoved ==> transport_failure(e) is CardRemoved,
        e is ReaderGone ==> transport_failure(e) is ReaderGone,
        e is Timeout ==> transport_failure(e) is Timeout,
        e is ProtocolError || e is Other ==> transport_failure(e) is TransportUnavailable,
{
}

/// The call that protects a command on its channel, and the channel after it.
pub open spec fn protects(
    event: Event,
    before: ScpSession,
    command: Seq<u8>,
    result: Result<Seq<u8>, BackendError>,
) -> bool {
    match (event, before) {
        (Event::Wrap03 { session, after, command: c, result: r }, ScpSession::Scp03(s)) => session
            == s@.session && c == command && r == result,
        (Event::Wrap02 { session, after, command: c, result: r }, ScpSession::Scp02(s)) => session
            == s@.session && c == command && r == result,
        _ => false,
    }
}

/// The call that verifies a response on its channel.
pub open spec fn verifies(
    event: Event,
    response: Seq<u8>,
    result: Result<Seq<u8>, BackendError>,
) -> bool {
    match event {
        Event::Unwrap03 { session, after, response: s, result: r } => s == response && r == result,
        Event::Unwrap02 { session, after, response: s, result: r } => s == response && r == result,
        _ => false,
    }
}

/// One exchange: the command is protected by the channel's session; what that gave, and
/// nothing else, goes over the link; what came back, and nothing else, is verified; and
/// the answer is what that gave. The first failure is the outcome, and ends it.
pub proof fn law_one_exchange(
    from: Moment,
    to: Moment,
    command: Seq<u8>,
    r: Result<Answer, ScllError>,
)
    requires
        exchanged(from, to, command, r),
    ensures
        ({
            let n = from.link.len() as int;
            let m = from.backend.len() as int;
            &&& to.backend.len() > m
            &&& to.backend.take(m) == from.backend
            &&& exists|wrapped: Result<Seq<u8>, BackendError>|
                #![trigger protects(to.backend[m], from.channel, command, wrapped)]
                protects(to.backend[m], from.channel, command, wrapped) && match wrapped {
                    Err(e) => {
                        &&& to.link == from.link
                        &&& to.backend.len() == m + 1
                        &&& r == Err::<Answer, ScllError>(ScllError::Backend(e))
                    },
                    Ok(wire) => {
                        &&& to.link.len() == n + 1
                        &&& to.link.take(n) == from.link
                        &&& to.link[n] matches Exchange::Apdu { command: sent, reply }
                        &&& sent == wire
                        &&& match reply {
                            Err(e) => {
                                &&& to.backend.len() == m + 1
                                &&& r == Err::<Answer, ScllError>(transport_failure(e))
                            },
                            Ok(bytes) => {
                                &&& to.backend.len() == m + 2
                                &&& exists|plain: Result<Seq<u8>, BackendError>|
                                    #![trigger verifies(to.backend[m + 1], bytes, plain)]
                                    verifies(to.backend[m + 1], bytes, plain) && match plain {
                                        Err(e) => r == Err::<Answer, ScllError>(
                                            ScllError::Backend(e),
                                        ),
                                        Ok(p) => r == split(p),
                                    }
                            },
                        }
                    },
                }
        }),
{
    let step = choose|step: Step|
        performed(from, to, seq![step]) && (#[trigger] step_outcome(step))
            == r && step.command == command;
    lemma_unfold(from, to, step);
    let n = from.link.len() as int;
    let m = from.backend.len() as int;
    assert(to.backend.take(m) =~= from.backend);
    assert(to.backend[m] == step.wrap_event);
    let wrapped = match step.wrap_event {
        Event::Wrap03 { result, .. } => result,
        Event::Wrap02 { result, .. } => result,
        _ => arbitrary(),
    };
    assert(protects(to.backend[m], from.channel, command, wrapped));
    if wrapped is Ok {
        assert(step.wrapped is Ok);
        assert(to.link.take(n) =~= from.link);
        if let Ok(bytes) = step.reply {
            assert(to.backend[m + 1] == step.unwrap_event);
            let plain = match step.unwrap_event {
                Event::Unwrap03 { result, .. } => result,
                Event::Unwrap02 { result, .. } => result,
                _ => arbitrary(),
            };
            assert(verifies(to.backend[m + 1], bytes, plain));
        }
    } else {
        assert(to.link =~= from.link);
    }
}

/// SELECT: `00 A4 04 00`, the length of the identifier where there is one, the
/// identifier, and `00`.
pub proof fn law_select_command(aid: Seq<u8>)
    requires
        aid.len() <= 255,
    ensures
        ({
            let s = select_command(aid);
            &&& s[0] == 0x00 && s[1] == 0xA4 && s[2] == 0x04 && s[3] == 0x00
            &&& aid.len() == 0 ==> s.len() == 5
            &&& aid.len() > 0 ==> s.len() == 6 + aid.len() && s[4] == aid.len() && s.subrange(
                5,
                5 + aid.len() as int,
            ) == aid
            &&& s.last() == 0x00
        }),
{
    law_short_command(0x00, 0xA4, 0x04, 0x00, aid, true);
}

/// The status words of SELECT: `9000` gives the data, `6A82` means that the card cannot be
/// used, and any other is a failure.
pub proof fn law_select_status(a: Answer)
    ensures
        a.sw == 0x9000 ==> select_outcome(Ok(a)) == Ok::<Seq<u8>, ScllError>(a.data),
        a.sw == 0x6A82 ==> select_outcome(Ok(a)) == Err::<Seq<u8>, ScllError>(
            ScllError::CardNotUsable,
        ),
        a.sw != 0x9000 ==> select_outcome(Ok(a)) is Err,
{
}

/// The identifier in an answer to SELECT is what stands under `84`, inside `6F` where the
/// answer has that, and at the top otherwise.
pub proof fn law_selected_name(
    fci: Seq<u8>,
    top: Seq<TlvObject>,
    i: int,
    inner: Seq<TlvObject>,
    j: int,
)
    requires
        fci.len() > 0,
        tlv_objects(fci) == Ok::<Seq<TlvObject>, TlvError>(top),
        is_first(top, 0x6F, i) && tlv_objects(top[i].value) == Ok::<Seq<TlvObject>, TlvError>(inner)
            || is_absent(top, 0x6F) && inner == top,
    ensures
        is_first(inner, 0x84, j) ==> df_name(fci) == Ok::<Option<Seq<u8>>, TlvError>(
            Some(inner[j].value),
        ),
        is_absent(inner, 0x84) ==> df_name(fci) == Ok::<Option<Seq<u8>>, TlvError>(None),
{
    law_first_object_is_found(top, 0x6F, i);
    law_first_object_is_found(inner, 0x84, j);
}

/// A command that is sent adds one exchange to the link, with the command and the reply, and
/// leaves what was there.
pub proof fn law_sending(
    before: Seq<Exchange>,
    after: Seq<Exchange>,
    command: Seq<u8>,
    reply: Result<Seq<u8>, TransportError>,
)
    requires
        sent(before, after, command, reply),
    ensures
        after.len() == before.len() + 1,
        after.take(before.len() as int) == before,
        after.last() == (Exchange::Apdu { command, reply }),
{
    assert(after.take(before.len() as int) =~= before);
}

/// Selecting an application sends SELECT with its identifier, once, and gives what the card
/// answers; an identifier of more than 255 octets is not sent at all.
pub proof fn law_selecting(
    before: Seq<Exchange>,
    after: Seq<Exchange>,
    aid: Seq<u8>,
    r: Result<Seq<u8>, ScllError>,
)
    requires
        selected_app(before, after, aid, r),
    ensures
        aid.len() > 255 ==> after == before && r is Err,
        aid.len() <= 255 ==> {
            &&& after.len() == before.len() + 1
            &&& after.last() is Apdu
            &&& after.last()->Apdu_command == select_command(aid)
            &&& r == select_outcome(plain_outcome(after.last()->Apdu_reply))
        },
{
}

} // verus!
