//! Exchanges with a card, in clear and over a secure channel.
use vstd::prelude::*;

use crate::backend::{Event, KeyBackend, Scp02Backend, Scp03Backend};
use crate::buffers::{capdu_bytes, capdu_slice, rapdu_bytes, rapdu_from_slice, rapdu_slice};
use crate::buffers::{Capdu, Rapdu};
use crate::command::select::select_by_aid;
use crate::command::{short_apdu, BuildError};
use crate::error::{general_sw, ScllError};
use crate::limits::RAPDU_MAX;
use crate::response::{find, first_value, opt_bytes, unwrapped_objects};
use crate::scp::scp02::{unwrapped02, wrapped02};
use crate::scp::scp03::{command_view, response_view, unwrapped03, wrapped03};
use crate::scp::{
    level_of, option_of, protocol_of, session_number, version_of, ScpSession,
};
use crate::tlv::{self, Tlv, TlvError};
use crate::transport::{Exchange, Transport, TransportError};

verus! {

/// Normal completion.
pub const SW_OK: u16 = 0x9000;

/// Referenced data not found.
pub const SW_REF_NOT_FOUND: u16 = 0x6A88;

/// File or application not found.
pub const SW_FILE_NOT_FOUND: u16 = 0x6A82;

/// Incorrect parameters in the data field.
pub const SW_WRONG_DATA: u16 = 0x6A80;

/// Conditions of use not satisfied.
pub const SW_CONDITIONS: u16 = 0x6985;

/// More data available (GET STATUS).
pub const SW_MORE_DATA: u16 = 0x6310;

/// FCI template of a SELECT answer.
pub const TAG_FCI: u32 = 0x6F;

/// Full application identifier inside the FCI template.
pub const TAG_DF_NAME: u32 = 0x84;

/// The error that a failed exchange leads to.
pub open spec fn transport_failure(err: TransportError) -> ScllError {
    match err {
        TransportError::CardRemoved => ScllError::CardRemoved,
        TransportError::ReaderGone => ScllError::ReaderGone,
        TransportError::Timeout => ScllError::Timeout,
        TransportError::ProtocolError => ScllError::TransportUnavailable,
        TransportError::Other(_) => ScllError::TransportUnavailable,
    }
}

/// Maps the failure of an exchange.
pub fn map_transport(err: &TransportError) -> (r: ScllError)
    ensures
        r == transport_failure(*err),
{
    match err {
        TransportError::CardRemoved => ScllError::CardRemoved,
        TransportError::ReaderGone => ScllError::ReaderGone,
        TransportError::Timeout => ScllError::Timeout,
        TransportError::ProtocolError => ScllError::TransportUnavailable,
        TransportError::Other(_) => ScllError::TransportUnavailable,
    }
}

/// The data and the status word of a card's answer.
pub struct Answer {
    pub data: Seq<u8>,
    pub sw: u16,
}

/// What an answer splits into: its last two bytes are the status word. An
/// answer without one counts as the status word zero, and one that is longer
/// than a response APDU is not taken.
pub open spec fn split(rapdu: Seq<u8>) -> Result<Answer, ScllError> {
    if rapdu.len() < 2 {
        Err(ScllError::Card { sw: 0 })
    } else {
        let n = rapdu.len() - 2;
        let sw = (rapdu[n] as u16 * 256 + rapdu[n + 1] as u16) as u16;
        if n > RAPDU_MAX {
            Err(ScllError::Card { sw })
        } else {
            Ok(Answer { data: rapdu.take(n), sw })
        }
    }
}

/// The content of an exchange result.
pub open spec fn answer_view(r: Result<(Rapdu, u16), ScllError>) -> Result<Answer, ScllError> {
    match r {
        Ok((data, sw)) => Ok(Answer { data: rapdu_bytes(data), sw }),
        Err(e) => Err(e),
    }
}

/// Splits a response APDU.
pub fn split_sw(rapdu: &[u8]) -> (r: Result<(Rapdu, u16), ScllError>)
    ensures
        answer_view(r) == split(rapdu@),
{
    if rapdu.len() < 2 {
        return Err(ScllError::Card { sw: 0 });
    }
    let n: usize = rapdu.len() - 2;
    let sw: u16 = rapdu[n] as u16 * 256 + rapdu[n + 1] as u16;
    assert(rapdu@.subrange(0, n as int) =~= rapdu@.take(n as int));
    match rapdu_from_slice(&rapdu[0..n]) {
        Ok(data) => Ok((data, sw)),
        Err(_) => Err(ScllError::Card { sw }),
    }
}

// ---- Exchanges in clear ----------------------------------------------------

/// What a reply leads to.
pub open spec fn plain_outcome(reply: Result<Seq<u8>, TransportError>) -> Result<
    Answer,
    ScllError,
> {
    match reply {
        Err(e) => Err(transport_failure(e)),
        Ok(bytes) => split(bytes),
    }
}

/// Exactly `command` was sent; `reply` is what came back.
pub open spec fn sent(
    before: Seq<Exchange>,
    after: Seq<Exchange>,
    command: Seq<u8>,
    reply: Result<Seq<u8>, TransportError>,
) -> bool {
    after == before.push(Exchange::Apdu { command, reply })
}

/// Sends one command as it is.
pub(crate) fn transmit_plain<T: Transport>(t: &mut T, capdu: &[u8]) -> (r: Result<
    (Rapdu, u16),
    ScllError,
>)
    ensures
        exists|reply: Result<Seq<u8>, TransportError>| #[trigger]
            sent(old(t).history(), final(t).history(), capdu@, reply) && answer_view(r)
                == plain_outcome(reply),
{
    match t.transmit(capdu) {
        Ok(rapdu) => {
            assert(sent(
                old(t).history(),
                t.history(),
                capdu@,
                Ok::<Seq<u8>, TransportError>(rapdu_bytes(rapdu)),
            ));
            split_sw(rapdu_slice(&rapdu))
        },
        Err(e) => {
            assert(sent(
                old(t).history(),
                t.history(),
                capdu@,
                Err::<Seq<u8>, TransportError>(e),
            ));
            Err(map_transport(&e))
        },
    }
}

/// The SELECT command of an application.
pub open spec fn select_command(aid: Seq<u8>) -> Seq<u8> {
    short_apdu(0x00, 0xA4, 0x04, 0x00, aid, true)
}

/// What the answer to SELECT means.
pub open spec fn select_outcome(answer: Result<Answer, ScllError>) -> Result<Seq<u8>, ScllError> {
    match answer {
        Err(e) => Err(e),
        Ok(a) => if a.sw == SW_OK {
            Ok(a.data)
        } else if a.sw == SW_FILE_NOT_FOUND {
            Err(ScllError::CardNotUsable)
        } else {
            Err(general_sw(a.sw))
        },
    }
}

/// What selecting does: one command, unless the identifier does not fit one.
pub open spec fn selected_app(
    before: Seq<Exchange>,
    after: Seq<Exchange>,
    aid: Seq<u8>,
    r: Result<Seq<u8>, ScllError>,
) -> bool {
    if aid.len() > 255 {
        after == before && r == Err::<Seq<u8>, ScllError>(ScllError::Build(BuildError::Overflow))
    } else {
        exists|reply: Result<Seq<u8>, TransportError>| #[trigger]
            sent(before, after, select_command(aid), reply) && r == select_outcome(
                plain_outcome(reply),
            )
    }
}

/// Selects an application, or the default one, and returns its FCI template.
pub(crate) fn select<T: Transport>(t: &mut T, aid: &[u8]) -> (r: Result<Rapdu, ScllError>)
    ensures
        selected_app(old(t).history(), final(t).history(), aid@, response_view(r)),
{
    let capdu: Capdu = match select_by_aid(aid) {
        Ok(c) => c,
        Err(e) => return Err(ScllError::Build(e)),
    };
    let answer: Result<(Rapdu, u16), ScllError> = transmit_plain(t, capdu_slice(&capdu));
    proof {
        let reply = choose|reply: Result<Seq<u8>, TransportError>| #[trigger]
            sent(old(t).history(), t.history(), capdu_bytes(capdu), reply) && answer_view(answer)
                == plain_outcome(reply);
        assert(sent(old(t).history(), t.history(), select_command(aid@), reply));
    }
    let (data, sw) = answer?;
    match sw {
        SW_OK => Ok(data),
        SW_FILE_NOT_FOUND => Err(ScllError::CardNotUsable),
        other => Err(ScllError::from_general_sw(other)),
    }
}

/// The full application identifier in an FCI template.
pub open spec fn df_name(fci: Seq<u8>) -> Result<Option<Seq<u8>>, TlvError> {
    if fci.len() == 0 {
        Ok(None)
    } else {
        match unwrapped_objects(fci, TAG_FCI) {
            Err(e) => Err(e),
            Ok(objects) => Ok(first_value(objects, TAG_DF_NAME)),
        }
    }
}

/// Finds the full identifier of the selected application in its FCI template,
/// with or without the outer tag. A caller may have selected by a part of it.
pub fn fci_df_name<'a>(fci: &'a [u8]) -> (r: Result<Option<&'a [u8]>, ScllError>)
    ensures
        match df_name(fci@) {
            Ok(name) => r matches Ok(found) && opt_bytes(found) == name,
            Err(e) => r matches Err(err) && err == ScllError::MalformedResponse(e),
        },
{
    if fci.len() == 0 {
        return Ok(None);
    }
    let top: Vec<Tlv<'a>> = match tlv::parse(fci) {
        Ok(v) => v,
        Err(e) => return Err(ScllError::MalformedResponse(e)),
    };
    if let Some(inner) = find(&top, TAG_FCI) {
        let parsed: Vec<Tlv<'a>> = match tlv::parse(inner) {
            Ok(v) => v,
            Err(e) => return Err(ScllError::MalformedResponse(e)),
        };
        return Ok(find(&parsed, TAG_DF_NAME));
    }
    Ok(find(&top, TAG_DF_NAME))
}

// ---- Exchanges over a secure channel ---------------------------------------

/// One exchange over a secure channel, with everything that took part in it.
pub struct Step {
    /// The channel before and after.
    pub before: ScpSession,
    pub after: ScpSession,
    /// The command before it was protected.
    pub command: Seq<u8>,
    /// What protecting it gave.
    pub wrapped: Result<Seq<u8>, ScllError>,
    /// What came back, where the command was sent.
    pub reply: Result<Seq<u8>, TransportError>,
    /// What verifying the reply gave, where one came back.
    pub unwrapped: Result<Seq<u8>, ScllError>,
    /// The channel between the two.
    pub middle: ScpSession,
    /// The calls of the backend.
    pub wrap_event: Event,
    pub unwrap_event: Event,
}

/// The wrapping call of a step is one of its channel's protocol.
pub open spec fn wrap_matches(step: Step) -> bool {
    match (step.before, step.middle) {
        (ScpSession::Scp03(b), ScpSession::Scp03(m)) => wrapped03(
            b@,
            m@,
            step.wrap_event,
            step.command,
            step.wrapped,
        ),
        (ScpSession::Scp02(b), ScpSession::Scp02(m)) => wrapped02(
            b@,
            m@,
            step.wrap_event,
            step.command,
            step.wrapped,
        ),
        _ => false,
    }
}

/// The unwrapping call of a step is one of its channel's protocol.
pub open spec fn unwrap_matches(step: Step, received: Seq<u8>) -> bool {
    match (step.middle, step.after) {
        (ScpSession::Scp03(m), ScpSession::Scp03(a)) => unwrapped03(
            m@,
            a@,
            step.unwrap_event,
            received,
            step.unwrapped,
        ),
        (ScpSession::Scp02(m), ScpSession::Scp02(a)) => unwrapped02(
            m@,
            a@,
            step.unwrap_event,
            received,
            step.unwrapped,
        ),
        _ => false,
    }
}

/// How a step hangs together: the command is protected, what that gave is sent,
/// and what came back is verified; a failure ends the step.
pub open spec fn step_valid(step: Step) -> bool {
    &&& wrap_matches(step)
    &&& (step.wrapped is Ok && step.reply is Ok) ==> unwrap_matches(step, step.reply->Ok_0)
    &&& !(step.wrapped is Ok && step.reply is Ok) ==> step.after == step.middle
}

/// What a step put on the link.
pub open spec fn step_exchanges(step: Step) -> Seq<Exchange> {
    match step.wrapped {
        Ok(wire) => seq![Exchange::Apdu { command: wire, reply: step.reply }],
        Err(_) => Seq::empty(),
    }
}

/// What a step asked of the backend.
pub open spec fn step_events(step: Step) -> Seq<Event> {
    if step.wrapped is Ok && step.reply is Ok {
        seq![step.wrap_event, step.unwrap_event]
    } else {
        seq![step.wrap_event]
    }
}

/// What a step gave: the card's answer in clear, or the first failure.
pub open spec fn step_outcome(step: Step) -> Result<Answer, ScllError> {
    match step.wrapped {
        Err(e) => Err(e),
        Ok(_) => match step.reply {
            Err(e) => Err(transport_failure(e)),
            Ok(_) => match step.unwrapped {
                Err(e) => Err(e),
                Ok(plain) => split(plain),
            },
        },
    }
}

/// What several steps put on the link.
pub open spec fn steps_exchanges(steps: Seq<Step>) -> Seq<Exchange>
    decreases steps.len(),
{
    if steps.len() == 0 {
        Seq::empty()
    } else {
        steps_exchanges(steps.drop_last()) + step_exchanges(steps.last())
    }
}

/// What several steps asked of the backend.
pub open spec fn steps_events(steps: Seq<Step>) -> Seq<Event>
    decreases steps.len(),
{
    if steps.len() == 0 {
        Seq::empty()
    } else {
        steps_events(steps.drop_last()) + step_events(steps.last())
    }
}

/// Several steps follow each other on one channel.
pub open spec fn steps_linked(steps: Seq<Step>, first: ScpSession, last: ScpSession) -> bool
    decreases steps.len(),
{
    if steps.len() == 0 {
        first == last
    } else {
        &&& step_valid(steps.last())
        &&& steps.last().after == last
        &&& steps_linked(steps.drop_last(), first, steps.last().before)
    }
}

/// A call of the backend that leaves the session handle as it was.
pub open spec fn handle_kept(event: Event) -> bool {
    match event {
        Event::Wrap03 { session, after, .. } => after == session,
        Event::Unwrap03 { session, after, .. } => after == session,
        Event::Wrap02 { session, after, .. } => after == session,
        Event::Unwrap02 { session, after, .. } => after == session,
        _ => true,
    }
}

/// All these calls leave the session handle as it was.
pub open spec fn handles_kept(events: Seq<Event>) -> bool {
    forall|i: int| 0 <= i < events.len() ==> handle_kept(#[trigger] events[i])
}

/// Whatever is done over an open channel, and however it ends, the channel keeps its
/// protocol, its security level, its key version and its option byte. It keeps its
/// number too, with a backend that leaves the session handle alone.
pub proof fn law_channel_stays_fixed(steps: Seq<Step>, first: ScpSession, last: ScpSession)
    requires
        steps_linked(steps, first, last),
    ensures
        protocol_of(last) == protocol_of(first),
        level_of(last) == level_of(first),
        version_of(last) == version_of(first),
        option_of(last) == option_of(first),
        handles_kept(steps_events(steps)) ==> session_number(last) == session_number(first),
    decreases steps.len(),
{
    if steps.len() > 0 {
        let init = steps.drop_last();
        let step = steps.last();
        law_channel_stays_fixed(init, first, step.before);
        if handles_kept(steps_events(steps)) {
            let all = steps_events(steps);
            let n = steps_events(init).len() as int;
            assert forall|i: int| 0 <= i < n implies handle_kept(
                #[trigger] steps_events(init)[i],
            ) by {
                assert(all[i] == steps_events(init)[i]);
            }
            assert(all[n] == step.wrap_event);
            if step.wrapped is Ok && step.reply is Ok {
                assert(all[n + 1] == step.unwrap_event);
            }
        }
    }
}

/// The state of the link and of the backend at one moment.
pub struct Moment {
    pub link: Seq<Exchange>,
    pub backend: Seq<Event>,
    pub channel: ScpSession,
}

/// The present moment.
pub open spec fn now<T: Transport, B: KeyBackend>(t: T, b: B, channel: ScpSession) -> Moment {
    Moment { link: t.history(), backend: b.events(), channel }
}

/// From one moment to another exactly these steps happened.
pub open spec fn performed(from: Moment, to: Moment, steps: Seq<Step>) -> bool {
    &&& to.link == from.link + steps_exchanges(steps)
    &&& to.backend == from.backend + steps_events(steps)
    &&& steps_linked(steps, from.channel, to.channel)
}

/// The commands of the steps, before protection.
pub open spec fn commands(steps: Seq<Step>) -> Seq<Seq<u8>> {
    steps.map_values(|s: Step| s.command)
}

/// The outcomes of the steps.
pub open spec fn outcomes(steps: Seq<Step>) -> Seq<Result<Answer, ScllError>> {
    steps.map_values(|s: Step| step_outcome(s))
}

/// Nothing happened.
pub proof fn lemma_nothing_performed(from: Moment)
    ensures
        performed(from, from, Seq::<Step>::empty()),
{
    assert(from.link =~= from.link + steps_exchanges(Seq::<Step>::empty()));
    assert(from.backend =~= from.backend + steps_events(Seq::<Step>::empty()));
}

/// One more step.
pub proof fn lemma_one_more(from: Moment, mid: Moment, to: Moment, steps: Seq<Step>, step: Step)
    requires
        performed(from, mid, steps),
        performed(mid, to, seq![step]),
    ensures
        performed(from, to, steps.push(step)),
        commands(steps.push(step)) == commands(steps).push(step.command),
        outcomes(steps.push(step)) == outcomes(steps).push(step_outcome(step)),
{
    let one = seq![step];
    let all = steps.push(step);
    assert(one.drop_last() =~= Seq::empty());
    assert(one.last() == step);
    assert(all.drop_last() =~= steps);
    reveal_with_fuel(steps_exchanges, 2);
    reveal_with_fuel(steps_events, 2);
    reveal_with_fuel(steps_linked, 2);
    assert(steps_exchanges(one) =~= step_exchanges(step));
    assert(steps_events(one) =~= step_events(step));
    assert(to.link =~= from.link + steps_exchanges(all));
    assert(to.backend =~= from.backend + steps_events(all));
    assert(commands(all) =~= commands(steps).push(step.command));
    assert(outcomes(all) =~= outcomes(steps).push(step_outcome(step)));
}

/// Steps after steps.
pub proof fn lemma_then(from: Moment, mid: Moment, to: Moment, first: Seq<Step>, second: Seq<Step>)
    requires
        performed(from, mid, first),
        performed(mid, to, second),
    ensures
        performed(from, to, first + second),
    decreases second.len(),
{
    if second.len() == 0 {
        assert(first + second =~= first);
        assert(to.link =~= mid.link);
        assert(to.backend =~= mid.backend);
    } else {
        let init = second.drop_last();
        let last = second.last();
        let before_last = Moment {
            link: mid.link + steps_exchanges(init),
            backend: mid.backend + steps_events(init),
            channel: last.before,
        };
        lemma_then(from, mid, before_last, first, init);
        assert((first + second).drop_last() =~= first + init);
        assert((first + second).last() == last);
        assert(before_last.link == from.link + steps_exchanges(first + init));
        assert(before_last.backend == from.backend + steps_events(first + init));
        assert(to.link =~= before_last.link + step_exchanges(last));
        assert(to.backend =~= before_last.backend + step_events(last));
        assert(to.link =~= from.link + steps_exchanges(first + second));
        assert(to.backend =~= from.backend + steps_events(first + second));
    }
}

/// A single step.
pub proof fn lemma_single(from: Moment, to: Moment, step: Step)
    requires
        step_valid(step),
        step.before == from.channel,
        step.after == to.channel,
        to.link == from.link + step_exchanges(step),
        to.backend == from.backend + step_events(step),
    ensures
        performed(from, to, seq![step]),
        commands(seq![step]) == seq![step.command],
        outcomes(seq![step]) == seq![step_outcome(step)],
{
    let one = seq![step];
    assert(one.drop_last() =~= Seq::empty());
    assert(one.last() == step);
    reveal_with_fuel(steps_exchanges, 2);
    reveal_with_fuel(steps_events, 2);
    reveal_with_fuel(steps_linked, 2);
    assert(steps_exchanges(one) =~= step_exchanges(step));
    assert(steps_events(one) =~= step_events(step));
    assert(commands(one) =~= seq![step.command]);
    assert(outcomes(one) =~= seq![step_outcome(step)]);
}

/// One step with this command happened, and `r` is its outcome.
pub open spec fn exchanged(
    from: Moment,
    to: Moment,
    command: Seq<u8>,
    r: Result<Answer, ScllError>,
) -> bool {
    exists|step: Step|
        performed(from, to, seq![step]) && (#[trigger] step_outcome(step)) == r && step.command
            == command
}

/// What happened on the link and in the backend leaves no doubt what came of a
/// command: the same moments and the same command have the same outcome.
pub proof fn lemma_one_outcome(
    from: Moment,
    to: Moment,
    command: Seq<u8>,
    a: Result<Answer, ScllError>,
    b: Result<Answer, ScllError>,
)
    requires
        exchanged(from, to, command, a),
        exchanged(from, to, command, b),
    ensures
        a == b,
{
    let x = choose|step: Step|
        performed(from, to, seq![step]) && (#[trigger] step_outcome(step)) == a && step.command
            == command;
    let y = choose|step: Step|
        performed(from, to, seq![step]) && (#[trigger] step_outcome(step)) == b && step.command
            == command;
    lemma_unfold(from, to, x);
    lemma_unfold(from, to, y);
    let ex = step_exchanges(x);
    let ey = step_exchanges(y);
    let vx = step_events(x);
    let vy = step_events(y);
    assert(ex =~= to.link.skip(from.link.len() as int));
    assert(ey =~= to.link.skip(from.link.len() as int));
    assert(vx =~= to.backend.skip(from.backend.len() as int));
    assert(vy =~= to.backend.skip(from.backend.len() as int));
    assert(x.wrap_event == vx[0]);
    assert(y.wrap_event == vy[0]);
    assert(x.wrapped == y.wrapped);
    if x.wrapped is Ok {
        assert(ex[0] == ey[0]);
        assert(x.reply == y.reply);
        if x.reply is Ok {
            assert(x.unwrap_event == vx[1]);
            assert(y.unwrap_event == vy[1]);
            assert(x.unwrapped == y.unwrapped);
        }
    }
}

/// What a single step is made of.
pub proof fn lemma_unfold(from: Moment, to: Moment, step: Step)
    requires
        performed(from, to, seq![step]),
    ensures
        step_valid(step),
        step.before == from.channel,
        to.link == from.link + step_exchanges(step),
        to.backend == from.backend + step_events(step),
{
    let one = seq![step];
    assert(one.drop_last() =~= Seq::empty());
    assert(one.last() == step);
    reveal_with_fuel(steps_exchanges, 2);
    reveal_with_fuel(steps_events, 2);
    reveal_with_fuel(steps_linked, 2);
    assert(steps_exchanges(one) =~= step_exchanges(step));
    assert(steps_events(one) =~= step_events(step));
}

/// `r` failed with `e`.
pub open spec fn fails_with<R>(r: Result<R, ScllError>, e: ScllError) -> bool {
    r matches Err(x) && x == e
}

/// Sends one command over the channel: protects it, transmits it, verifies the
/// response and splits off the status word.
pub(crate) fn transmit_in_session<T: Transport, B: Scp02Backend + Scp03Backend>(
    t: &mut T,
    backend: &mut B,
    session: &mut ScpSession,
    capdu_plaintext: &[u8],
) -> (r: Result<(Rapdu, u16), ScllError>)
    ensures
        exchanged(
            now(*old(t), *old(backend), *old(session)),
            now(*final(t), *final(backend), *final(session)),
            capdu_plaintext@,
            answer_view(r),
        ),
{
    let ghost m0 = Moment { link: t.history(), backend: backend.events(), channel: *session };
    let wrapped: Result<Capdu, ScllError> = match session {
        ScpSession::Scp03(s) => s.wrap_command(backend, capdu_plaintext),
        ScpSession::Scp02(s) => s.wrap_command(backend, capdu_plaintext),
    };
    let ghost middle = *session;
    let ghost wrap_event = backend.events().last();
    let ghost mut step = Step {
        before: m0.channel,
        after: middle,
        command: capdu_plaintext@,
        wrapped: command_view(wrapped),
        reply: Err(TransportError::Timeout),
        unwrapped: Err(ScllError::Timeout),
        middle,
        wrap_event,
        unwrap_event: wrap_event,
    };
    proof {
        assert(backend.events() =~= m0.backend.push(wrap_event));
        assert(wrap_matches(step));
    }
    let wire: Capdu = match wrapped {
        Ok(w) => w,
        Err(e) => {
            proof {
                let m1 = Moment {
                    link: t.history(),
                    backend: backend.events(),
                    channel: *session,
                };
                assert(m1.link =~= m0.link + step_exchanges(step));
                assert(m1.backend =~= m0.backend + step_events(step));
                lemma_single(m0, m1, step);
            }
            return Err(e);
        },
    };
    let rapdu: Rapdu = match t.transmit(capdu_slice(&wire)) {
        Ok(x) => x,
        Err(e) => {
            proof {
                step = Step { reply: Err(e), ..step };
                let m1 = Moment {
                    link: t.history(),
                    backend: backend.events(),
                    channel: *session,
                };
                assert(m1.link =~= m0.link + step_exchanges(step));
                assert(m1.backend =~= m0.backend + step_events(step));
                lemma_single(m0, m1, step);
            }
            return Err(map_transport(&e));
        },
    };
    let unwrapped: Result<Rapdu, ScllError> = match session {
        ScpSession::Scp03(s) => s.unwrap_response(backend, rapdu_slice(&rapdu)),
        ScpSession::Scp02(s) => s.unwrap_response(backend, rapdu_slice(&rapdu)),
    };
    proof {
        step = Step {
            after: *session,
            reply: Ok(rapdu_bytes(rapdu)),
            unwrapped: response_view(unwrapped),
            unwrap_event: backend.events().last(),
            ..step
        };
        let m1 = Moment { link: t.history(), backend: backend.events(), channel: *session };
        assert(m1.link =~= m0.link + step_exchanges(step));
        assert(m1.backend =~= m0.backend + step_events(step));
        lemma_single(m0, m1, step);
    }
    match unwrapped {
        Ok(plain) => split_sw(rapdu_slice(&plain)),
        Err(e) => Err(e),
    }
}

} // verus!
