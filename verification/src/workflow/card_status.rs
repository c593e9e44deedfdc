//! The card's life cycle state, and the paged GET STATUS behind it.
use vstd::prelude::*;

use crate::aid::{aid_shaped, Aid};
use crate::backend::{Scp02Backend, Scp03Backend};
use crate::buffers::{capdu_slice, rapdu_slice, Capdu};
use crate::command::get_status::{get_status_p2, status_query, P2_FIRST_TLV, P2_NEXT_TLV};
use crate::command::set_status::set_card_status as set_card_status_command;
use crate::command::{short_apdu, BuildError};
use crate::error::{general_sw, plain_warnings, ScllError, Warning, WarningKind};
use crate::lifecycle::{check_transition, life_cycle_byte, transition, TransitionPlan};
use crate::limits::{MAX_STATUS_PAGES, MAX_STATUS_SCOPE_BYTES, RAPDU_MAX};
use crate::report::{
    CardLifeCycle, GetCardStatusParams, GetCardStatusReport, SetCardStatusParams,
    SetCardStatusReport,
};
use crate::response::{parse_status_e3, reported_state};
use crate::scp::ScpSession;
use crate::tlv::{self, tlv_objects, TlvError, TlvObject};
use crate::transport::Transport;
use crate::workflow::session::{
    answer_view, commands, exchanged, fails_with, lemma_nothing_performed, lemma_one_more,
    lemma_then, now, outcomes, performed, step_outcome, transmit_in_session, Answer, Moment,
    Step, SW_CONDITIONS, SW_MORE_DATA, SW_OK, SW_REF_NOT_FOUND,
};

verus! {

/// Scope of the issuer security domain.
pub const P1_ISD_SCOPE: u8 = 0x80;

// ---- One scope, over all its pages -----------------------------------------

/// GET STATUS of page number `page`.
pub open spec fn page_command(p1: u8, page: int) -> Seq<u8> {
    let p2: u8 = if page == 0 {
        P2_FIRST_TLV
    } else {
        P2_NEXT_TLV
    };
    short_apdu(0x80, 0xF2, p1, p2, status_query(Seq::empty()), true)
}

/// The commands of the first `n` pages.
pub open spec fn page_commands(p1: u8, n: nat) -> Seq<Seq<u8>> {
    Seq::new(n, |page: int| page_command(p1, page))
}

/// What the answers from page number `page` on lead to, after pages that gave
/// `buf`, of which the first `good` bytes are known to be whole objects: the
/// gathered bytes, and whether something is missing. Pages are cut at any byte,
/// so only what was gathered is looked at. Too many pages and too many objects leave
/// the beginning that is known; bytes that are no well-formed objects once the card has
/// finished are a failure. `None` where the card was asked too often or not often
/// enough.
pub open spec fn scope_from(
    answers: Seq<Result<Answer, ScllError>>,
    page: nat,
    buf: Seq<u8>,
    good: nat,
) -> Option<Result<(Seq<u8>, bool), ScllError>>
    decreases answers.len(),
{
    if page >= MAX_STATUS_PAGES {
        if answers.len() == 0 {
            Some(Ok((buf.take(good as int), true)))
        } else {
            None
        }
    } else if answers.len() == 0 {
        None
    } else {
        let last = answers.len() == 1;
        match answers[0] {
            Err(e) => if last {
                Some(Err(e))
            } else {
                None
            },
            Ok(a) => if a.sw == SW_OK || a.sw == SW_MORE_DATA {
                let all = buf + a.data;
                if a.sw == SW_MORE_DATA {
                    let known = if tlv_objects(all) is Ok {
                        all.len()
                    } else {
                        good
                    };
                    scope_from(answers.skip(1), page + 1, all, known)
                } else if !last {
                    None
                } else {
                    match tlv_objects(all) {
                        Ok(_) => Some(Ok((all, false))),
                        Err(TlvError::TooMany) => Some(Ok((all.take(good as int), true))),
                        Err(e) => Some(Err(ScllError::MalformedResponse(e))),
                    }
                }
            } else if !last {
                None
            } else if a.sw == SW_REF_NOT_FOUND {
                Some(Ok((Seq::empty(), false)))
            } else {
                Some(Err(general_sw(a.sw)))
            },
        }
    }
}

/// What the steps of one scope lead to; `None` where they are not the steps of
/// the scope.
pub open spec fn scope_outcome(p1: u8, steps: Seq<Step>) -> Option<
    Result<(Seq<u8>, bool), ScllError>,
> {
    if commands(steps) =~= page_commands(p1, steps.len()) {
        scope_from(outcomes(steps), 0, Seq::empty(), 0)
    } else {
        None
    }
}

/// Reading a scope changes nothing on the card: every command is GET STATUS.
pub proof fn law_scope_only_reads(p1: u8, steps: Seq<Step>, i: int)
    requires
        scope_outcome(p1, steps) is Some,
        0 <= i < steps.len(),
    ensures
        steps[i].command == page_command(p1, i),
        steps[i].command[1] == 0xF2,
{
    assert(commands(steps)[i] == steps[i].command);
    assert(page_commands(p1, steps.len())[i] == page_command(p1, i));
}

/// The content of a scope result.
pub open spec fn scope_view(r: Result<(Vec<u8>, bool), ScllError>) -> Result<
    (Seq<u8>, bool),
    ScllError,
> {
    match r {
        Ok((data, truncated)) => Ok((data@, truncated)),
        Err(e) => Err(e),
    }
}

/// The data of the first pages in one.
pub open spec fn gathered(pages: Seq<Seq<u8>>) -> Seq<u8>
    decreases pages.len(),
{
    if pages.len() == 0 {
        Seq::empty()
    } else {
        pages[0] + gathered(pages.skip(1))
    }
}

/// The answers of a card that cuts its response into pages.
pub open spec fn paged(pages: Seq<Seq<u8>>) -> Seq<Result<Answer, ScllError>> {
    Seq::new(
        pages.len(),
        |i: int|
            Ok(
                Answer {
                    data: pages[i],
                    sw: if i == pages.len() - 1 {
                        SW_OK
                    } else {
                        SW_MORE_DATA
                    },
                },
            ),
    )
}

proof fn lemma_paged(pages: Seq<Seq<u8>>, page: nat, buf: Seq<u8>, good: nat)
    requires
        pages.len() > 0,
        page + pages.len() <= MAX_STATUS_PAGES,
        tlv_objects(buf + gathered(pages)) is Ok,
    ensures
        scope_from(paged(pages), page, buf, good) == Some(
            Ok::<(Seq<u8>, bool), ScllError>((buf + gathered(pages), false)),
        ),
    decreases pages.len(),
{
    reveal_with_fuel(gathered, 2);
    let all = buf + pages[0];
    if pages.len() == 1 {
        assert(pages.skip(1) =~= Seq::empty());
        assert(buf + gathered(pages) =~= all);
        assert(all.take(all.len() as int) =~= all);
    } else {
        assert(paged(pages).skip(1) =~= paged(pages.skip(1)));
        assert(buf + gathered(pages) =~= all + gathered(pages.skip(1)));
        let known = if tlv_objects(all) is Ok {
            all.len()
        } else {
            good
        };
        lemma_paged(pages.skip(1), page + 1, all, known);
    }
}

/// Where a card cuts a well-formed answer makes no difference: as long as there
/// are not too many pages, all of it is gathered and nothing is missing.
pub proof fn law_pages_are_joined_bytewise(pages: Seq<Seq<u8>>)
    requires
        0 < pages.len() <= MAX_STATUS_PAGES,
        tlv_objects(gathered(pages)) is Ok,
    ensures
        scope_from(paged(pages), 0, Seq::empty(), 0) == Some(
            Ok::<(Seq<u8>, bool), ScllError>((gathered(pages), false)),
        ),
{
    assert(Seq::<u8>::empty() + gathered(pages) =~= gathered(pages));
    lemma_paged(pages, 0, Seq::empty(), 0);
}

/// What is handed on is always made of whole objects, missing or not.
pub proof fn law_scopes_are_well_formed(
    answers: Seq<Result<Answer, ScllError>>,
    data: Seq<u8>,
    truncated: bool,
)
    requires
        scope_from(answers, 0, Seq::empty(), 0) == Some(
            Ok::<(Seq<u8>, bool), ScllError>((data, truncated)),
        ),
    ensures
        tlv_objects(data) is Ok,
{
    assert(Seq::<u8>::empty().take(0) =~= Seq::<u8>::empty());
    lemma_scope_whole(answers, 0, Seq::empty(), 0, data, truncated);
}

proof fn lemma_scope_whole(
    answers: Seq<Result<Answer, ScllError>>,
    page: nat,
    buf: Seq<u8>,
    good: nat,
    data: Seq<u8>,
    truncated: bool,
)
    requires
        good <= buf.len(),
        tlv_objects(buf.take(good as int)) is Ok,
        scope_from(answers, page, buf, good) == Some(
            Ok::<(Seq<u8>, bool), ScllError>((data, truncated)),
        ),
    ensures
        tlv_objects(data) is Ok,
    decreases answers.len(),
{
    if page < MAX_STATUS_PAGES && answers.len() > 0 {
        if let Ok(a) = answers[0] {
            if a.sw == SW_OK || a.sw == SW_MORE_DATA {
                let all = buf + a.data;
                assert(all.take(all.len() as int) =~= all);
                assert(all.take(good as int) =~= buf.take(good as int));
                if a.sw == SW_MORE_DATA {
                    let known = if tlv_objects(all) is Ok {
                        all.len()
                    } else {
                        good
                    };
                    lemma_scope_whole(answers.skip(1), page + 1, all, known, data, truncated);
                }
            } else {
                assert(tlv_objects(Seq::<u8>::empty()) is Ok);
            }
        }
    }
}

/// A card that finishes with bytes that are no well-formed objects is answered with a
/// failure, wherever it cut them; only too many objects leave a beginning instead.
pub proof fn law_broken_answers_are_failures(pages: Seq<Seq<u8>>, e: TlvError)
    requires
        0 < pages.len() <= MAX_STATUS_PAGES,
        tlv_objects(gathered(pages)) == Err::<Seq<TlvObject>, TlvError>(e),
        e != TlvError::TooMany,
    ensures
        scope_from(paged(pages), 0, Seq::empty(), 0) == Some(
            Err::<(Seq<u8>, bool), ScllError>(ScllError::MalformedResponse(e)),
        ),
{
    assert(Seq::<u8>::empty() + gathered(pages) =~= gathered(pages));
    lemma_broken(pages, 0, Seq::empty(), 0, e);
}

proof fn lemma_broken(pages: Seq<Seq<u8>>, page: nat, buf: Seq<u8>, good: nat, e: TlvError)
    requires
        pages.len() > 0,
        page + pages.len() <= MAX_STATUS_PAGES,
        tlv_objects(buf + gathered(pages)) == Err::<Seq<TlvObject>, TlvError>(e),
        e != TlvError::TooMany,
    ensures
        scope_from(paged(pages), page, buf, good) == Some(
            Err::<(Seq<u8>, bool), ScllError>(ScllError::MalformedResponse(e)),
        ),
    decreases pages.len(),
{
    reveal_with_fuel(gathered, 2);
    let all = buf + pages[0];
    if pages.len() == 1 {
        assert(pages.skip(1) =~= Seq::empty());
        assert(buf + gathered(pages) =~= all);
    } else {
        assert(paged(pages).skip(1) =~= paged(pages.skip(1)));
        assert(buf + gathered(pages) =~= all + gathered(pages.skip(1)));
        let known = if tlv_objects(all) is Ok {
            all.len()
        } else {
            good
        };
        lemma_broken(pages.skip(1), page + 1, all, known, e);
    }
}

/// Reads one scope to its end, at most [`MAX_STATUS_PAGES`] pages.
pub(crate) fn read_status_scope<T: Transport, B: Scp02Backend + Scp03Backend>(
    t: &mut T,
    backend: &mut B,
    session: &mut ScpSession,
    p1: u8,
) -> (r: Result<(Vec<u8>, bool), ScllError>)
    ensures
        exists|steps: Seq<Step>| #[trigger]
            performed(
                now(*old(t), *old(backend), *old(session)),
                now(*final(t), *final(backend), *final(session)),
                steps,
            ) && scope_outcome(p1, steps) == Some(scope_view(r)),
        r matches Ok((data, _)) ==> data@.len() <= MAX_STATUS_SCOPE_BYTES,
{
    let ghost m0 = now(*t, *backend, *session);
    let ghost mut steps = Seq::<Step>::empty();
    let mut buf: Vec<u8> = Vec::new();
    let mut good_len: usize = 0;
    let mut p2: u8 = P2_FIRST_TLV;
    let mut page: usize = 0;
    proof {
        lemma_nothing_performed(m0);
        assert forall|rest: Seq<Result<Answer, ScllError>>| #[trigger]
            scope_from(outcomes(steps) + rest, 0, Seq::empty(), 0) == scope_from(
                rest,
                0,
                buf@,
                0,
            ) by {
            assert(outcomes(steps) + rest =~= rest);
            assert(buf@ =~= Seq::empty());
        }
    }
    while page < MAX_STATUS_PAGES
        invariant
            page <= MAX_STATUS_PAGES,
            steps.len() == page,
            buf@.len() <= page * RAPDU_MAX,
            good_len <= buf@.len(),
            p2 == (if page == 0 {
                P2_FIRST_TLV
            } else {
                P2_NEXT_TLV
            }),
            m0 == now(*old(t), *old(backend), *old(session)),
            performed(m0, now(*t, *backend, *session), steps),
            commands(steps) =~= page_commands(p1, page as nat),
            forall|rest: Seq<Result<Answer, ScllError>>| #[trigger]
                scope_from(outcomes(steps) + rest, 0, Seq::empty(), 0) == scope_from(
                    rest,
                    page as nat,
                    buf@,
                    good_len as nat,
                ),
        decreases MAX_STATUS_PAGES - page,
    {
        let none: [u8; 0] = [];
        let capdu: Capdu = match get_status_p2(p1, p2, &none) {
            Ok(c) => c,
            Err(_) => vstd::pervasive::unreached(),
        };
        assert(none@ =~= Seq::<u8>::empty());
        let ghost mid = now(*t, *backend, *session);
        let answer = transmit_in_session(t, backend, session, capdu_slice(&capdu));
        let ghost before = steps;
        let ghost buf0 = buf@;
        proof {
            let to = now(*t, *backend, *session);
            let command = page_command(p1, page as int);
            assert(exchanged(mid, to, command, answer_view(answer)));
            let step = choose|step: Step|
                performed(mid, to, seq![step]) && (#[trigger] step_outcome(step)) == answer_view(
                    answer,
                ) && step.command == command;
            lemma_one_more(m0, mid, to, steps, step);
            steps = steps.push(step);
            assert(commands(steps) =~= page_commands(p1, (page + 1) as nat));
            let one = seq![answer_view(answer)];
            assert(outcomes(steps) =~= outcomes(before) + one);
            assert(scope_from(outcomes(before) + one, 0, Seq::empty(), 0) == scope_from(
                one,
                page as nat,
                buf0,
                good_len as nat,
            ));
        }
        let (data, sw) = answer?;
        let bytes: &[u8] = rapdu_slice(&data);
        if sw == SW_OK || sw == SW_MORE_DATA {
            buf.extend_from_slice(bytes);
            assert(buf@ =~= buf0 + bytes@);
            let ghost good0 = good_len;
            match tlv::parse(buf.as_slice()) {
                Ok(_) => {
                    if sw == SW_OK {
                        return Ok((buf, false));
                    }
                    good_len = buf.len();
                },
                Err(e) => {
                    if sw == SW_OK {
                        match e {
                            TlvError::TooMany => {
                                buf.truncate(good_len);
                                assert(buf@ =~= (buf0 + bytes@).take(good_len as int));
                                return Ok((buf, true));
                            },
                            _ => return Err(ScllError::MalformedResponse(e)),
                        }
                    }
                },
            }
            p2 = P2_NEXT_TLV;
            proof {
                let a = answer_view(answer);
                assert forall|rest: Seq<Result<Answer, ScllError>>| #[trigger]
                    scope_from(outcomes(steps) + rest, 0, Seq::empty(), 0) == scope_from(
                        rest,
                        (page + 1) as nat,
                        buf@,
                        good_len as nat,
                    ) by {
                    let later = seq![a] + rest;
                    assert(outcomes(steps) + rest =~= outcomes(before) + later);
                    assert(later.skip(1) =~= rest);
                    assert(later[0] == a);
                    assert(scope_from(outcomes(before) + later, 0, Seq::empty(), 0) == scope_from(
                        later,
                        page as nat,
                        buf0,
                        good0 as nat,
                    ));
                    reveal_with_fuel(scope_from, 2);
                }
            }
        } else if sw == SW_REF_NOT_FOUND {
            let empty: Vec<u8> = Vec::new();
            assert(empty@ =~= Seq::<u8>::empty());
            return Ok((empty, false));
        } else {
            return Err(ScllError::from_general_sw(sw));
        }
        page = page + 1;
    }
    proof {
        let none = Seq::<Result<Answer, ScllError>>::empty();
        assert(outcomes(steps) + none =~= outcomes(steps));
        assert(scope_from(outcomes(steps) + none, 0, Seq::empty(), 0) == scope_from(
            none,
            page as nat,
            buf@,
            good_len as nat,
        ));
    }
    let ghost all = buf@;
    buf.truncate(good_len);
    assert(buf@ =~= all.take(good_len as int));
    Ok((buf, true))
}

// ---- Reading the state -----------------------------------------------------

/// What a report on the card's state says, given what was read.
pub open spec fn status_reported(
    r: Result<GetCardStatusReport, ScllError>,
    read: Result<(Seq<u8>, bool), ScllError>,
    isd_aid: Seq<u8>,
) -> bool {
    match read {
        Err(e) => fails_with(r, e),
        Ok((data, truncated)) => match reported_state(data) {
            Err(e) => fails_with(r, ScllError::MalformedResponse(e)),
            Ok(state) => if !aid_shaped(isd_aid) {
                fails_with(r, ScllError::InvalidAid { len: isd_aid.len() as usize })
            } else {
                r matches Ok(report) && {
                    let decoded = match state {
                        Some(s) => s,
                        None => CardLifeCycle::Unknown(0),
                    };
                    let remark: Seq<WarningKind> = match state {
                        None => seq![WarningKind::GetStatusParseFailed],
                        Some(CardLifeCycle::Unknown(b)) => seq![
                            WarningKind::UnknownLifecycleByte(b),
                        ],
                        Some(_) => Seq::empty(),
                    };
                    let cut: Seq<WarningKind> = if truncated {
                        seq![WarningKind::GetStatusParseFailed]
                    } else {
                        Seq::empty()
                    };
                    &&& report.state == decoded
                    &&& report.effective.decoded_state == decoded
                    &&& report.effective.raw_state_byte == life_cycle_byte(decoded)
                    &&& report.effective.isd_aid@ == isd_aid
                    &&& plain_warnings(report.warnings@, remark + cut)
                }
            },
        },
    }
}

/// The life cycle byte of a state.
fn raw_byte(s: CardLifeCycle) -> (r: u8)
    ensures
        r == life_cycle_byte(s),
{
    match s {
        CardLifeCycle::OpReady => 0x01,
        CardLifeCycle::Initialized => 0x07,
        CardLifeCycle::Secured => 0x0F,
        CardLifeCycle::CardLocked => 0x7F,
        CardLifeCycle::Terminated => 0xFF,
        CardLifeCycle::Unknown(b) => b,
    }
}

/// Reports the card's state from the registry entry of the issuer security
/// domain. An answer that names no state is no error, and neither is a state that is
/// not known; each is a remark.
pub fn status_report(data: &[u8], truncated: bool, isd_aid: &[u8]) -> (r: Result<
    GetCardStatusReport,
    ScllError,
>)
    ensures
        status_reported(r, Ok((data@, truncated)), isd_aid@),
{
    let state: Option<CardLifeCycle> = match parse_status_e3(data) {
        Ok(s) => s,
        Err(e) => return Err(ScllError::MalformedResponse(e)),
    };
    let mut warnings: Vec<Warning> = Vec::new();
    let decoded: CardLifeCycle = match state {
        Some(s) => {
            if let CardLifeCycle::Unknown(b) = s {
                warnings.push(Warning::plain(WarningKind::UnknownLifecycleByte(b)));
            }
            s
        },
        None => {
            warnings.push(Warning::plain(WarningKind::GetStatusParseFailed));
            CardLifeCycle::Unknown(0)
        },
    };
    if truncated {
        warnings.push(Warning::plain(WarningKind::GetStatusParseFailed));
    }
    let isd: Aid = Aid::new(isd_aid)?;
    Ok(
        GetCardStatusReport {
            state: decoded,
            effective: GetCardStatusParams {
                raw_state_byte: raw_byte(decoded),
                decoded_state: decoded,
                isd_aid: isd,
            },
            warnings,
        },
    )
}

/// Reads the card's life cycle state.
pub fn get_card_status<T: Transport, B: Scp02Backend + Scp03Backend>(
    t: &mut T,
    backend: &mut B,
    session: &mut ScpSession,
    isd_aid: &[u8],
) -> (r: Result<GetCardStatusReport, ScllError>)
    ensures
        exists|steps: Seq<Step>| #[trigger]
            performed(
                now(*old(t), *old(backend), *old(session)),
                now(*final(t), *final(backend), *final(session)),
                steps,
            ) && (scope_outcome(P1_ISD_SCOPE, steps) matches Some(read) && status_reported(
                r,
                read,
                isd_aid@,
            )),
{
    let (data, truncated) = read_status_scope(t, backend, session, P1_ISD_SCOPE)?;
    status_report(data.as_slice(), truncated, isd_aid)
}

// ---- Setting the state -----------------------------------------------------

/// What to set. Without `current_state` the card is asked first; `force` allows
/// the skip to `SECURED` and nothing else.
pub struct SetCardStatusArgs<'a> {
    pub target_state: CardLifeCycle,
    pub current_state: Option<CardLifeCycle>,
    pub force: bool,
    pub isd_aid: &'a [u8],
}

/// What a status word of SET STATUS means.
pub open spec fn set_status_verdict(sw: u16) -> Result<(), ScllError> {
    if sw == SW_OK {
        Ok(())
    } else if sw == SW_CONDITIONS {
        Err(ScllError::IllegalLifecycleTransition)
    } else {
        Err(general_sw(sw))
    }
}

/// Reads the status word of SET STATUS.
pub fn set_status_status(sw: u16) -> (r: Result<(), ScllError>)
    ensures
        r == set_status_verdict(sw),
{
    match sw {
        SW_OK => Ok(()),
        SW_CONDITIONS => Err(ScllError::IllegalLifecycleTransition),
        other => Err(ScllError::from_general_sw(other)),
    }
}

/// The state that the request starts from: the caller's, or what the card says
/// in the steps `first`. `None` where those steps are not the ones to take.
pub open spec fn starting_state(args: SetCardStatusArgs<'_>, first: Seq<Step>) -> Option<
    Result<CardLifeCycle, ScllError>,
> {
    match args.current_state {
        Some(s) => if first.len() == 0 {
            Some(Ok(s))
        } else {
            None
        },
        None => match scope_outcome(P1_ISD_SCOPE, first) {
            None => None,
            Some(Err(e)) => Some(Err(e)),
            Some(Ok((data, _))) => match reported_state(data) {
                Err(e) => Some(Err(ScllError::MalformedResponse(e))),
                Ok(state) => if !aid_shaped(args.isd_aid@) {
                    Some(Err(ScllError::InvalidAid { len: args.isd_aid@.len() as usize }))
                } else {
                    match state {
                        Some(s) => Some(Ok(s)),
                        None => Some(Ok(CardLifeCycle::Unknown(0))),
                    }
                },
            },
        },
    }
}

/// Only locking and unlocking can be undone.
pub open spec fn is_irreversible(current: CardLifeCycle, target: CardLifeCycle) -> bool {
    (target is Initialized || target is Secured) && current != CardLifeCycle::CardLocked
}

/// The report on a request that was carried out, or that nothing had to be done
/// for.
pub open spec fn status_set(
    r: Result<SetCardStatusReport, ScllError>,
    args: SetCardStatusArgs<'_>,
    current: CardLifeCycle,
    no_op: bool,
) -> bool {
    r matches Ok(report) && {
        &&& report.effective == (SetCardStatusParams {
            state_before: current,
            target_state: args.target_state,
            p1_status_type: P1_ISD_SCOPE,
            p2_state_byte: life_cycle_byte(args.target_state),
            was_no_op: no_op,
            force_used: args.force,
            irreversible: is_irreversible(current, args.target_state),
        })
        &&& plain_warnings(
            report.warnings@,
            if no_op {
                seq![WarningKind::LifecycleNoOp]
            } else {
                Seq::empty()
            },
        )
    }
}

/// What setting the state does: after the steps `first`, which find out the
/// current state, the transition is held against the life cycle, and only a
/// legal one that changes something sends SET STATUS.
pub open spec fn status_change(
    args: SetCardStatusArgs<'_>,
    first: Seq<Step>,
    second: Seq<Step>,
    r: Result<SetCardStatusReport, ScllError>,
) -> bool {
    match starting_state(args, first) {
        None => false,
        Some(Err(e)) => second.len() == 0 && fails_with(r, e),
        Some(Ok(current)) => match transition(current, args.target_state, args.force) {
            Err(e) => second.len() == 0 && fails_with(r, e),
            Ok(TransitionPlan::NoOp) => second.len() == 0 && status_set(r, args, current, true),
            Ok(TransitionPlan::Apply { p2 }) => if args.isd_aid@.len() > 255 {
                second.len() == 0 && fails_with(r, ScllError::Build(BuildError::Overflow))
            } else {
                &&& second.len() == 1
                &&& second[0].command == short_apdu(0x84, 0xF0, 0x80, p2, args.isd_aid@, false)
                &&& match step_outcome(second[0]) {
                    Err(e) => fails_with(r, e),
                    Ok(a) => match set_status_verdict(a.sw) {
                        Err(e) => fails_with(r, e),
                        Ok(()) => status_set(r, args, current, false),
                    },
                }
            },
        },
    }
}

/// From one moment to the other two groups of steps happened.
pub open spec fn performed_twice(
    from: Moment,
    to: Moment,
    first: Seq<Step>,
    second: Seq<Step>,
) -> bool {
    performed(from, to, first + second)
}

/// Sets the card's life cycle state.
pub fn set_card_status<T: Transport, B: Scp02Backend + Scp03Backend>(
    t: &mut T,
    backend: &mut B,
    session: &mut ScpSession,
    args: &SetCardStatusArgs<'_>,
) -> (r: Result<SetCardStatusReport, ScllError>)
    ensures
        exists|first: Seq<Step>, second: Seq<Step>| #[trigger]
            performed_twice(
                now(*old(t), *old(backend), *old(session)),
                now(*final(t), *final(backend), *final(session)),
                first,
                second,
            ) && status_change(*args, first, second, r),
{
    let ghost m0 = now(*t, *backend, *session);
    let ghost mut first = Seq::<Step>::empty();
    let ghost nothing = Seq::<Step>::empty();
    proof {
        lemma_nothing_performed(m0);
    }
    let known: Result<CardLifeCycle, ScllError> = match args.current_state {
        Some(s) => Ok(s),
        None => {
            let status = get_card_status(t, backend, session, args.isd_aid);
            proof {
                first = choose|steps: Seq<Step>| #[trigger]
                    performed(m0, now(*t, *backend, *session), steps) && (scope_outcome(
                        P1_ISD_SCOPE,
                        steps,
                    ) matches Some(read) && status_reported(status, read, args.isd_aid@));
            }
            match status {
                Ok(report) => Ok(report.state),
                Err(e) => Err(e),
            }
        },
    };
    let ghost m1 = now(*t, *backend, *session);
    proof {
        assert(first + nothing =~= first);
        assert(performed_twice(m0, m1, first, nothing));
        assert(starting_state(*args, first) == Some(known));
    }
    let current: CardLifeCycle = known?;
    let plan: TransitionPlan = check_transition(current, args.target_state, args.force)?;
    let mut warnings: Vec<Warning> = Vec::new();
    let (was_no_op, p2_state_byte): (bool, u8) = match plan {
        TransitionPlan::NoOp => {
            warnings.push(Warning::plain(WarningKind::LifecycleNoOp));
            (true, raw_byte(args.target_state))
        },
        TransitionPlan::Apply { p2 } => {
            let capdu: Capdu = match set_card_status_command(p2, args.isd_aid) {
                Ok(c) => c,
                Err(e) => return Err(ScllError::Build(e)),
            };
            let answer = transmit_in_session(t, backend, session, capdu_slice(&capdu));
            proof {
                let m2 = now(*t, *backend, *session);
                let command = short_apdu(0x84, 0xF0, 0x80, p2, args.isd_aid@, false);
                assert(exchanged(m1, m2, command, answer_view(answer)));
                let step = choose|step: Step|
                    performed(m1, m2, seq![step]) && (#[trigger] step_outcome(step))
                        == answer_view(answer) && step.command == command;
                lemma_then(m0, m1, m2, first, seq![step]);
                assert(performed_twice(m0, m2, first, seq![step]));
                assert(seq![step][0] == step);
            }
            let (_data, sw) = answer?;
            set_status_status(sw)?;
            (false, p2)
        },
    };
    let irreversible: bool = match args.target_state {
        CardLifeCycle::Initialized => current != CardLifeCycle::CardLocked,
        CardLifeCycle::Secured => current != CardLifeCycle::CardLocked,
        _ => false,
    };
    Ok(
        SetCardStatusReport {
            effective: SetCardStatusParams {
                state_before: current,
                target_state: args.target_state,
                p1_status_type: P1_ISD_SCOPE,
                p2_state_byte,
                was_no_op,
                force_used: args.force,
                irreversible,
            },
            warnings,
        },
    )
}

/// A request that the life cycle does not allow reaches the card at no time, and
/// neither does one for the state that it is in.
pub proof fn law_refused_requests_send_nothing(
    args: SetCardStatusArgs<'_>,
    first: Seq<Step>,
    second: Seq<Step>,
    r: Result<SetCardStatusReport, ScllError>,
)
    requires
        status_change(args, first, second, r),
        args.current_state matches Some(s) && !(transition(s, args.target_state, args.force) matches
            Ok(TransitionPlan::Apply { p2 })),
    ensures
        first.len() == 0,
        second.len() == 0,
{
}

} // verus!
