//! Opening a secure channel.
use vstd::prelude::*;

use crate::aid::{aid_shaped, Aid};
use crate::backend::{
    gained, grew, Event, KeyBackend, KeyHandle, Scp02Backend, Scp03Backend, ScpMode,
};
use crate::buffers::{capdu_bytes, capdu_slice, rapdu_slice, Capdu, Rapdu};
use crate::command::BuildError;
use crate::error::{general_sw, BackendError, ScllError};
use crate::model::ScpVariant;
use crate::report::{OpenScpParams, OpenScpReport, ScpProtocol, ScpTargetKind};
use crate::scp::scp03::response_view;
use crate::scp::{
    self, level_of, option_of, protocol_of, scp02, scp03, selected, session_number, version_of,
    ScpSession,
};
use crate::transport::{Exchange, Transport, TransportError};
use crate::workflow::discover::happened;
use crate::workflow::session::{
    answer_view, df_name, fails_with, fci_df_name, handle_kept, handles_kept,
    law_channel_stays_fixed, plain_outcome, select, select_command, select_outcome, sent,
    steps_events, steps_linked, transmit_plain, Answer, Step, SW_OK,
};

verus! {

/// Key identifier that SCP02 asks for: the default one of the key version.
const SCP02_KEY_ID: u8 = 0x00;

/// The static keys of a security domain.
#[derive(Debug, Clone, Copy)]
pub struct SdKeys {
    pub enc: KeyHandle,
    pub mac: KeyHandle,
    pub dek: KeyHandle,
}

/// What to open. `advertised` is the card's list; `force_scp` overrides the
/// choice from it. Version zero leaves the key version to the card, and the
/// level is cut to what the card can do.
pub struct OpenScpArgs<'a> {
    pub target_aid: &'a [u8],
    pub target_kind: ScpTargetKind,
    pub sd_keys: SdKeys,
    pub advertised: &'a [ScpVariant],
    pub force_scp: Option<ScpVariant>,
    pub kvn: u8,
    pub requested_level: u8,
}

/// The identifier that the card computes with: the one in its FCI template, or
/// the selected one where the template has none that is well formed.
pub open spec fn invoker(fci: Seq<u8>, target: Seq<u8>) -> Seq<u8> {
    match df_name(fci) {
        Ok(Some(name)) => if aid_shaped(name) {
            name
        } else {
            target
        },
        _ => target,
    }
}

/// Length of the host's challenge.
pub open spec fn challenge_len(variant: ScpVariant) -> nat {
    match variant {
        ScpVariant::Scp03 { i_param } => ScpMode::of(i_param).width(),
        ScpVariant::Scp02 { .. } => 8,
    }
}

/// INITIALIZE UPDATE of a variant.
pub open spec fn update_command(variant: ScpVariant, kvn: u8, host: Seq<u8>) -> Seq<u8> {
    match variant {
        ScpVariant::Scp03 { .. } => scp03::initialize_update(kvn, host),
        ScpVariant::Scp02 { .. } => scp02::initialize_update(kvn, 0x00, host),
    }
}

/// What is told of an opened channel.
pub struct Opened {
    pub protocol: ScpProtocol,
    pub number: u64,
    pub kvn: u8,
    pub i_param: u8,
    pub security_level: u8,
}

/// The content of a channel.
pub open spec fn opened_view(s: ScpSession) -> Opened {
    Opened {
        protocol: protocol_of(s),
        number: session_number(s),
        kvn: version_of(s),
        i_param: option_of(s),
        security_level: level_of(s),
    }
}

/// How the channel is set up on the host's side: the calls of the backend after
/// the challenge, and the channel with its EXTERNAL AUTHENTICATE.
pub open spec fn set_up(
    args: OpenScpArgs<'_>,
    variant: ScpVariant,
    host: Seq<u8>,
    aid: Seq<u8>,
    answer: Seq<u8>,
    calls: Seq<Event>,
    begun: Result<(ScpSession, Seq<u8>), ScllError>,
) -> bool {
    match variant {
        ScpVariant::Scp03 { .. } => scp03::begun03(
            calls,
            args.sd_keys.enc,
            args.sd_keys.mac,
            args.kvn,
            args.requested_level,
            host,
            aid,
            answer,
            match begun {
                Ok((ScpSession::Scp03(st), ea)) => Ok((st@, ea)),
                Ok((ScpSession::Scp02(_), _)) => Err(ScllError::NoOpenChannel),
                Err(e) => Err(e),
            },
        ) && !(begun matches Ok((ScpSession::Scp02(_), _))),
        ScpVariant::Scp02 { i_param } => scp02::begun02(
            calls,
            args.sd_keys.enc,
            args.sd_keys.mac,
            args.sd_keys.dek,
            i_param,
            args.kvn,
            args.requested_level,
            host,
            answer,
            match begun {
                Ok((ScpSession::Scp02(st), ea)) => Ok((st@, ea)),
                Ok((ScpSession::Scp03(_), _)) => Err(ScllError::NoOpenChannel),
                Err(e) => Err(e),
            },
        ) && !(begun matches Ok((ScpSession::Scp03(_), _))),
    }
}

/// An exchange that sent this command.
pub open spec fn sends(x: Exchange, command: Seq<u8>) -> bool {
    x matches Exchange::Apdu { command: c, reply: _ } && c == command
}

/// What came back in an exchange.
pub open spec fn reply_in(x: Exchange) -> Result<Answer, ScllError> {
    plain_outcome(x->Apdu_reply)
}

/// What an opened channel is reported as.
pub open spec fn open_reported(
    r: Result<OpenScpReport, ScllError>,
    args: OpenScpArgs<'_>,
    aid: Seq<u8>,
    session: ScpSession,
) -> bool {
    r matches Ok(report) && {
        let channel = opened_view(session);
        &&& report.session == session
        &&& report.effective.target_aid@ == args.target_aid@
        &&& report.effective.target_kind == args.target_kind
        &&& report.effective.sd_aid_used_for_keys@ == args.target_aid@
        &&& report.effective.scp_protocol_effective == channel.protocol
        &&& report.effective.kvn_requested == args.kvn
        &&& report.effective.kvn_effective == channel.kvn
        &&& report.effective.i_param_effective == channel.i_param
        &&& report.effective.security_level_requested == args.requested_level
        &&& report.effective.security_level_effective == channel.security_level
        &&& report.effective.session_id == channel.number
        &&& report.effective.invoker_aid_used@ == aid
        &&& report.warnings@.len() == 0
    }
}

/// What the card's answer to EXTERNAL AUTHENTICATE leads to; it is sent once.
pub open spec fn authenticated(
    r: Result<OpenScpReport, ScllError>,
    args: OpenScpArgs<'_>,
    aid: Seq<u8>,
    link: Seq<Exchange>,
    begun: Result<(ScpSession, Seq<u8>), ScllError>,
) -> bool {
    match begun {
        Err(e) => link.len() == 2 && fails_with(r, e),
        Ok((session, ea)) => {
            &&& link.len() == 3
            &&& sends(link[2], ea)
            &&& match reply_in(link[2]) {
                Err(e) => fails_with(r, e),
                Ok(a) => if a.sw != SW_OK {
                    fails_with(r, ScllError::ExternalAuthFail { sw: a.sw })
                } else {
                    open_reported(r, args, aid, session)
                },
            }
        },
    }
}

/// What happens after the selection: a challenge, INITIALIZE UPDATE, and what
/// the card's answer to it leads to.
pub open spec fn challenged(
    r: Result<OpenScpReport, ScllError>,
    args: OpenScpArgs<'_>,
    variant: ScpVariant,
    aid: Seq<u8>,
    link: Seq<Exchange>,
    calls: Seq<Event>,
) -> bool {
    &&& calls.len() >= 1
    &&& calls[0] matches Event::Random { len, result } && len == challenge_len(variant)
        && match result {
        Err(e) => link.len() == 1 && calls.len() == 1 && fails_with(r, ScllError::Backend(e)),
        Ok(host) => {
            &&& link.len() >= 2
            &&& sends(link[1], update_command(variant, args.kvn, host))
            &&& match reply_in(link[1]) {
                Err(e) => link.len() == 2 && calls.len() == 1 && fails_with(r, e),
                Ok(a) => if a.sw != SW_OK {
                    link.len() == 2 && calls.len() == 1 && fails_with(r, general_sw(a.sw))
                } else {
                    exists|begun: Result<(ScpSession, Seq<u8>), ScllError>| #[trigger]
                        set_up(args, variant, host, aid, a.data, calls.skip(1), begun)
                            && authenticated(r, args, aid, link, begun)
                },
            }
        },
    }
}

/// What opening a channel does on the link and asks of the backend, and what it
/// leads to.
pub open spec fn opened(
    r: Result<OpenScpReport, ScllError>,
    args: OpenScpArgs<'_>,
    link: Seq<Exchange>,
    calls: Seq<Event>,
) -> bool {
    match selected(args.advertised@, args.force_scp) {
        None => link.len() == 0 && calls.len() == 0 && fails_with(
            r,
            ScllError::ScpProtocolUnsupported,
        ),
        Some(variant) => if args.target_aid@.len() > 255 {
            link.len() == 0 && calls.len() == 0 && fails_with(
                r,
                ScllError::Build(BuildError::Overflow),
            )
        } else {
            &&& link.len() >= 1
            &&& sends(link[0], select_command(args.target_aid@))
            &&& match select_outcome(reply_in(link[0])) {
                Err(e) => link.len() == 1 && calls.len() == 0 && fails_with(r, e),
                Ok(fci) => if !aid_shaped(args.target_aid@) {
                    link.len() == 1 && calls.len() == 0 && fails_with(
                        r,
                        ScllError::InvalidAid { len: args.target_aid@.len() as usize },
                    )
                } else {
                    challenged(r, args, variant, invoker(fci, args.target_aid@), link, calls)
                },
            }
        },
    }
}

/// No channel is reported as open unless the card answered SELECT, INITIALIZE
/// UPDATE and EXTERNAL AUTHENTICATE with success, and the last of them was sent
/// once.
pub proof fn law_open_means_authenticated(
    r: Result<OpenScpReport, ScllError>,
    args: OpenScpArgs<'_>,
    link: Seq<Exchange>,
    calls: Seq<Event>,
)
    requires
        opened(r, args, link, calls),
        r is Ok,
    ensures
        link.len() == 3,
        forall|i: int| 0 <= i < 3 ==> (reply_in(#[trigger] link[i]) matches Ok(a) && a.sw == SW_OK),
{
}

/// Whatever the requested level, a channel is not opened at a level that was not
/// asked for.
pub proof fn law_level_is_never_raised(
    r: Result<OpenScpReport, ScllError>,
    args: OpenScpArgs<'_>,
    link: Seq<Exchange>,
    calls: Seq<Event>,
    bit: u8,
)
    requires
        opened(r, args, link, calls),
        r is Ok,
    ensures
        r->Ok_0.effective.security_level_effective & bit != 0 ==> args.requested_level & bit != 0,
{
    let variant = selected(args.advertised@, args.force_scp)->Some_0;
    let fci = select_outcome(reply_in(link[0]))->Ok_0;
    let aid = invoker(fci, args.target_aid@);
    let host = calls[0]->Random_result->Ok_0;
    let answer = reply_in(link[1])->Ok_0.data;
    let begun = choose|begun: Result<(ScpSession, Seq<u8>), ScllError>| #[trigger]
        set_up(args, variant, host, aid, answer, calls.skip(1), begun) && authenticated(
            r,
            args,
            aid,
            link,
            begun,
        );
    assert(set_up(args, variant, host, aid, answer, calls.skip(1), begun));
    match variant {
        ScpVariant::Scp03 { i_param } => {
            let iu = scp03::iu_fields(answer)->Ok_0;
            scp03::law_capping_only_removes(iu.i_param, args.requested_level, bit);
        },
        ScpVariant::Scp02 { i_param } => {
            scp02::law_capping_only_removes(i_param, args.requested_level, bit);
        },
    }
}

/// The slot of a session that was derived.
pub open spec fn derived_slot(event: Event) -> Option<u64> {
    match event {
        Event::Derive03 { result: Ok(session), .. } => Some(session.0 as u64),
        Event::Derive02 { result: Ok(session), .. } => Some(session.0 as u64),
        _ => None,
    }
}

/// An open channel stays as it was opened, whatever is done over it and however that
/// ends. Its level is the reported one: some of what was asked for, and not nothing. Its
/// key version is the reported one: what the card answered, and what was asked for
/// where the caller asked. Its number is the reported one, the slot in which the
/// backend holds the session, with a backend that leaves the session handle alone.
pub proof fn law_channel_stays_as_opened(
    r: Result<OpenScpReport, ScllError>,
    args: OpenScpArgs<'_>,
    link: Seq<Exchange>,
    calls: Seq<Event>,
    steps: Seq<Step>,
    last: ScpSession,
)
    requires
        opened(r, args, link, calls),
        r is Ok,
        steps_linked(steps, r->Ok_0.session, last),
    ensures
        level_of(last) == r->Ok_0.effective.security_level_effective,
        level_of(last) != 0,
        level_of(last) & args.requested_level == level_of(last),
        version_of(last) == r->Ok_0.effective.kvn_effective,
        reply_in(link[1]) matches Ok(a) && version_of(last) == a.data[10],
        args.kvn != 0 ==> version_of(last) == args.kvn,
        option_of(last) == r->Ok_0.effective.i_param_effective,
        protocol_of(last) == r->Ok_0.effective.scp_protocol_effective,
        session_number(r->Ok_0.session) == r->Ok_0.effective.session_id,
        handles_kept(calls) ==> derived_slot(calls[1]) == Some(r->Ok_0.effective.session_id),
        handles_kept(steps_events(steps)) ==> session_number(last)
            == r->Ok_0.effective.session_id,
{
    law_channel_stays_fixed(steps, r->Ok_0.session, last);
    let variant = selected(args.advertised@, args.force_scp)->Some_0;
    let fci = select_outcome(reply_in(link[0]))->Ok_0;
    let aid = invoker(fci, args.target_aid@);
    let host = calls[0]->Random_result->Ok_0;
    let answer = reply_in(link[1])->Ok_0.data;
    let ev = calls.skip(1);
    let begun = choose|begun: Result<(ScpSession, Seq<u8>), ScllError>| #[trigger]
        set_up(args, variant, host, aid, answer, ev, begun) && authenticated(
            r,
            args,
            aid,
            link,
            begun,
        );
    assert(set_up(args, variant, host, aid, answer, ev, begun));
    assert(ev[0] == calls[1]);
    let requested = args.requested_level;
    assert(forall|a: u8| (requested & a) & requested == #[trigger] (requested & a)) by (bit_vector);
    assert(handles_kept(calls) ==> handles_kept(ev)) by {
        if handles_kept(calls) {
            assert forall|i: int| 0 <= i < ev.len() implies handle_kept(#[trigger] ev[i]) by {
                assert(ev[i] == calls[i + 1]);
            }
        }
    }
}

/// A random challenge.
fn random_challenge<B: KeyBackend>(backend: &mut B, len: usize) -> (r: Result<Vec<u8>, ScllError>)
    ensures
        exists|result: Result<Seq<u8>, BackendError>|
            final(backend).events() == old(backend).events().push(
                #[trigger] random_call(len as nat, result),
            ) && match result {
                Ok(bytes) => r matches Ok(v) && v@ == bytes && v@.len() == len,
                Err(e) => fails_with(r, ScllError::Backend(e)),
            },
{
    let mut buf: Vec<u8> = Vec::new();
    let mut i: usize = 0;
    while i < len
        invariant
            i <= len,
            buf@.len() == i,
        decreases len - i,
    {
        buf.push(0);
        i = i + 1;
    }
    let r = backend.random_bytes(buf.as_mut_slice());
    match r {
        Ok(()) => {
            assert(backend.events() == old(backend).events().push(random_call(len as nat, Ok(buf@))));
            Ok(buf)
        },
        Err(e) => {
            assert(backend.events() == old(backend).events().push(random_call(len as nat, Err(e))));
            Err(ScllError::Backend(e))
        },
    }
}

/// A call for randomness.
pub open spec fn random_call(len: nat, result: Result<Seq<u8>, BackendError>) -> Event {
    Event::Random { len, result }
}

/// The identifier that the card computes with.
fn invoker_aid(fci: &[u8], target: &Aid) -> (r: Aid)
    ensures
        r@ == invoker(fci@, target@),
{
    match fci_df_name(fci) {
        Ok(Some(name)) => match Aid::new(name) {
            Ok(aid) => aid,
            Err(_) => target.clone(),
        },
        _ => target.clone(),
    }
}

/// Sets up the channel on the host's side.
fn begin<B: Scp02Backend + Scp03Backend>(
    backend: &mut B,
    args: &OpenScpArgs<'_>,
    variant: ScpVariant,
    host: &Vec<u8>,
    aid: &[u8],
    answer: &[u8],
) -> (r: Result<(ScpSession, Capdu), ScllError>)
    requires
        host@.len() == challenge_len(variant),
    ensures
        grew(old(backend).events(), final(backend).events()),
        set_up(
            *args,
            variant,
            host@,
            aid@,
            answer@,
            gained(old(backend).events(), final(backend).events()),
            begun_view(r),
        ),
{
    match variant {
        ScpVariant::Scp03 { .. } => {
            match scp03::begin(
                backend,
                &args.sd_keys.enc,
                &args.sd_keys.mac,
                args.kvn,
                args.requested_level,
                host.as_slice(),
                aid,
                answer,
            ) {
                Ok((state, ea)) => Ok((ScpSession::Scp03(state), ea)),
                Err(e) => Err(e),
            }
        },
        ScpVariant::Scp02 { i_param } => {
            let challenge: [u8; 8] = [
                host[0],
                host[1],
                host[2],
                host[3],
                host[4],
                host[5],
                host[6],
                host[7],
            ];
            assert(challenge@ =~= host@);
            match scp02::begin(
                backend,
                &args.sd_keys.enc,
                &args.sd_keys.mac,
                &args.sd_keys.dek,
                i_param,
                args.kvn,
                args.requested_level,
                &challenge,
                answer,
            ) {
                Ok((state, ea)) => Ok((ScpSession::Scp02(state), ea)),
                Err(e) => Err(e),
            }
        },
    }
}

/// Builds INITIALIZE UPDATE.
fn update(variant: ScpVariant, kvn: u8, host: &Vec<u8>) -> (r: Capdu)
    requires
        host@.len() == challenge_len(variant),
    ensures
        capdu_bytes(r) == update_command(variant, kvn, host@),
{
    let built: Result<Capdu, ScllError> = match variant {
        ScpVariant::Scp03 { .. } => scp03::iu_command(kvn, host.as_slice()),
        ScpVariant::Scp02 { .. } => {
            let challenge: [u8; 8] = [
                host[0],
                host[1],
                host[2],
                host[3],
                host[4],
                host[5],
                host[6],
                host[7],
            ];
            assert(challenge@ =~= host@);
            scp02::iu_command(kvn, SCP02_KEY_ID, &challenge)
        },
    };
    match built {
        Ok(c) => c,
        Err(_) => vstd::pervasive::unreached(),
    }
}

/// The content of a begun channel.
pub open spec fn begun_view(r: Result<(ScpSession, Capdu), ScllError>) -> Result<
    (ScpSession, Seq<u8>),
    ScllError,
> {
    match r {
        Ok((session, ea)) => Ok((session, capdu_bytes(ea))),
        Err(e) => Err(e),
    }
}

/// Sends a command in clear and names the exchange.
fn exchange<T: Transport>(t: &mut T, capdu: &[u8]) -> (r: (
    Result<(Rapdu, u16), ScllError>,
    Ghost<Exchange>,
))
    ensures
        final(t).history() == old(t).history().push(r.1@),
        sends(r.1@, capdu@),
        answer_view(r.0) == reply_in(r.1@),
{
    let ghost h0 = t.history();
    let answer = transmit_plain(t, capdu);
    let ghost reply = choose|reply: Result<Seq<u8>, TransportError>| #[trigger]
        sent(h0, t.history(), capdu@, reply) && answer_view(answer) == plain_outcome(reply);
    let ghost x = Exchange::Apdu { command: capdu@, reply };
    assert(sent(h0, t.history(), capdu@, reply));
    (answer, Ghost(x))
}

/// What follows the selection of the target.
fn run_handshake<T: Transport, B: Scp02Backend + Scp03Backend>(
    t: &mut T,
    backend: &mut B,
    args: &OpenScpArgs<'_>,
    variant: ScpVariant,
    target_aid: Aid,
    invoker_aid: Aid,
    link0: Ghost<Seq<Exchange>>,
) -> (r: (Result<OpenScpReport, ScllError>, Ghost<Seq<Exchange>>, Ghost<Seq<Event>>))
    requires
        target_aid@ == args.target_aid@,
        link0@.len() == 1,
    ensures
        r.1@.len() >= 1,
        r.1@[0] == link0@[0],
        final(t).history() == old(t).history() + r.1@.skip(1),
        final(backend).events() == old(backend).events() + r.2@,
        challenged(r.0, *args, variant, invoker_aid@, r.1@, r.2@),
{
    let ghost h0 = t.history();
    let ghost e0 = backend.events();
    let len: usize = match variant {
        ScpVariant::Scp03 { i_param } => ScpMode::from_i(i_param).field_len(),
        ScpVariant::Scp02 { .. } => 8,
    };
    let random = random_challenge(backend, len);
    let ghost call = choose|result: Result<Seq<u8>, BackendError>|
        backend.events() == e0.push(#[trigger] random_call(len as nat, result)) && match result {
            Ok(bytes) => random matches Ok(v) && v@ == bytes && v@.len() == len,
            Err(e) => fails_with(random, ScllError::Backend(e)),
        };
    let ghost calls1 = seq![random_call(len as nat, call)];
    proof {
        assert(backend.events() =~= e0 + calls1);
        assert(h0 =~= h0 + link0@.skip(1));
    }
    let host: Vec<u8> = match random {
        Ok(v) => v,
        Err(e) => return (Err(e), link0, Ghost(calls1)),
    };
    let iu_capdu: Capdu = update(variant, args.kvn, &host);
    let (iu, Ghost(x1)) = exchange(t, capdu_slice(&iu_capdu));
    let ghost link1 = link0@.push(x1);
    assert(t.history() =~= h0 + link1.skip(1));
    let (iu_data, sw) = match iu {
        Ok(v) => v,
        Err(e) => return (Err(e), Ghost(link1), Ghost(calls1)),
    };
    if sw != SW_OK {
        return (Err(ScllError::from_general_sw(sw)), Ghost(link1), Ghost(calls1));
    }
    let ghost e1 = backend.events();
    let begun = begin(
        backend,
        args,
        variant,
        &host,
        invoker_aid.as_bytes(),
        rapdu_slice(&iu_data),
    );
    let ghost later = gained(e1, backend.events());
    let ghost calls2 = calls1 + later;
    let ghost view = begun_view(begun);
    proof {
        assert(backend.events() =~= e1 + later);
        assert(backend.events() =~= e0 + calls2);
        assert(calls2.skip(1) =~= later);
        assert(calls2[0] == random_call(len as nat, call));
        assert(link1[1] == x1);
        assert(set_up(
            *args,
            variant,
            call->Ok_0,
            invoker_aid@,
            reply_in(x1)->Ok_0.data,
            calls2.skip(1),
            view,
        ));
    }
    let (session, ea) = match begun {
        Ok(v) => v,
        Err(e) => {
            let r: Result<OpenScpReport, ScllError> = Err(e);
            assert(authenticated(r, *args, invoker_aid@, link1, view));
            return (r, Ghost(link1), Ghost(calls2));
        },
    };
    let (ea_answer, Ghost(x2)) = exchange(t, capdu_slice(&ea));
    let ghost link2 = link1.push(x2);
    assert(t.history() =~= h0 + link2.skip(1));
    let r: Result<OpenScpReport, ScllError> = finish(
        ea_answer,
        args,
        session,
        target_aid,
        invoker_aid,
    );
    assert(authenticated(r, *args, invoker_aid@, link2, view));
    (r, Ghost(link2), Ghost(calls2))
}

/// What the card's answer to EXTERNAL AUTHENTICATE leads to.
fn finish(
    answer: Result<(Rapdu, u16), ScllError>,
    args: &OpenScpArgs<'_>,
    session: ScpSession,
    target_aid: Aid,
    invoker_aid: Aid,
) -> (r: Result<OpenScpReport, ScllError>)
    requires
        target_aid@ == args.target_aid@,
    ensures
        match answer_view(answer) {
            Err(e) => fails_with(r, e),
            Ok(a) => if a.sw != SW_OK {
                fails_with(r, ScllError::ExternalAuthFail { sw: a.sw })
            } else {
                open_reported(r, *args, invoker_aid@, session)
            },
        },
{
    let (_data, sw) = answer?;
    if sw != SW_OK {
        return Err(ScllError::ExternalAuthFail { sw });
    }
    let effective: OpenScpParams = OpenScpParams {
        target_aid: target_aid.clone(),
        target_kind: args.target_kind,
        sd_aid_used_for_keys: target_aid,
        scp_protocol_effective: session.protocol(),
        kvn_requested: args.kvn,
        kvn_effective: session.kvn(),
        i_param_effective: session.i_param(),
        security_level_requested: args.requested_level,
        security_level_effective: session.security_level(),
        session_id: session.session_id(),
        invoker_aid_used: invoker_aid,
    };
    Ok(OpenScpReport { session, effective, warnings: Vec::new() })
}

/// What happened on the link and at the backend.
pub open spec fn took_place<T: Transport, B: KeyBackend>(
    t0: T,
    t1: T,
    b0: B,
    b1: B,
    link: Seq<Exchange>,
    calls: Seq<Event>,
) -> bool {
    &&& t1.history() == t0.history() + link
    &&& b1.events() == b0.events() + calls
}

/// Opens a secure channel to the target: chooses the protocol, selects, and
/// authenticates both ways. A refused EXTERNAL AUTHENTICATE is not repeated.
pub fn open_scp<T: Transport, B: Scp02Backend + Scp03Backend>(
    t: &mut T,
    backend: &mut B,
    args: &OpenScpArgs<'_>,
) -> (r: Result<OpenScpReport, ScllError>)
    ensures
        exists|link: Seq<Exchange>, calls: Seq<Event>| #[trigger]
            took_place(*old(t), *final(t), *old(backend), *final(backend), link, calls) && opened(
                r,
                *args,
                link,
                calls,
            ),
{
    let ghost none = Seq::<Exchange>::empty();
    let ghost no_calls = Seq::<Event>::empty();
    proof {
        assert(t.history() =~= t.history() + none);
        assert(backend.events() =~= backend.events() + no_calls);
        assert(took_place(*old(t), *t, *old(backend), *backend, none, no_calls));
    }
    let variant: ScpVariant = match scp::select(args.advertised, args.force_scp) {
        Some(v) => v,
        None => return Err(ScllError::ScpProtocolUnsupported),
    };
    let ghost h0 = t.history();
    let fci = select(t, args.target_aid);
    let ghost reply = choose|reply: Result<Seq<u8>, TransportError>| #[trigger]
        sent(h0, t.history(), select_command(args.target_aid@), reply) && response_view(fci)
            == select_outcome(plain_outcome(reply));
    let ghost x0 = Exchange::Apdu { command: select_command(args.target_aid@), reply };
    let ghost link0 = seq![x0];
    proof {
        if args.target_aid@.len() <= 255 {
            assert(sent(h0, t.history(), select_command(args.target_aid@), reply));
            assert(t.history() =~= h0 + link0);
            assert(took_place(*old(t), *t, *old(backend), *backend, link0, no_calls));
        } else {
            assert(took_place(*old(t), *t, *old(backend), *backend, none, no_calls));
        }
    }
    let fci: Rapdu = fci?;
    let target_aid: Aid = Aid::new(args.target_aid)?;
    let invoker_aid: Aid = invoker_aid(rapdu_slice(&fci), &target_aid);
    let (r, Ghost(link), Ghost(calls)) = run_handshake(
        t,
        backend,
        args,
        variant,
        target_aid,
        invoker_aid,
        Ghost(link0),
    );
    proof {
        assert(t.history() =~= h0 + link);
        assert(took_place(*old(t), *t, *old(backend), *backend, link, calls));
    }
    r
}

} // verus!
