//! The card life cycle (GPCS v2.3.1 §5.1.1).
//!
//! `OP_READY`, `INITIALIZED` and `SECURED` follow each other and are not left
//! backwards; `SECURED` and `CARD_LOCKED` alternate; `TERMINATED` is never a
//! target here.
use vstd::prelude::*;

use crate::error::ScllError;
use crate::report::CardLifeCycle;

verus! {

const P2_INITIALIZED: u8 = 0x07;

const P2_SECURED: u8 = 0x0F;

const P2_CARD_LOCKED: u8 = 0x7F;

/// What a legal request asks for.
#[derive(Debug, Clone, Copy, PartialEq, Eq, Structural)]
pub enum TransitionPlan {
    /// The card is in the target state; nothing is sent.
    NoOp,
    /// The life cycle byte to send.
    Apply { p2: u8 },
}

/// The states that a card can be set to.
pub open spec fn settable(state: CardLifeCycle) -> bool {
    state is OpReady || state is Initialized || state is Secured || state is CardLocked
}

/// The steps of the life cycle; the second one is a skip and needs `force`.
pub open spec fn step_allowed(current: CardLifeCycle, target: CardLifeCycle, force: bool) -> bool {
    ||| current is OpReady && target is Initialized
    ||| current is OpReady && target is Secured && force
    ||| current is Initialized && target is Secured
    ||| current is Secured && target is CardLocked
    ||| current is CardLocked && target is Secured
}

/// The life cycle byte of a state.
pub open spec fn life_cycle_byte(state: CardLifeCycle) -> u8 {
    match state {
        CardLifeCycle::OpReady => 0x01,
        CardLifeCycle::Initialized => 0x07,
        CardLifeCycle::Secured => 0x0F,
        CardLifeCycle::CardLocked => 0x7F,
        CardLifeCycle::Terminated => 0xFF,
        CardLifeCycle::Unknown(b) => b,
    }
}

/// What becomes of a request to go from `current` to `target`.
pub open spec fn transition(current: CardLifeCycle, target: CardLifeCycle, force: bool) -> Result<
    TransitionPlan,
    ScllError,
> {
    if target is Terminated {
        Err(ScllError::TerminateOutOfScope)
    } else if !settable(target) {
        Err(ScllError::IllegalLifecycleTransition)
    } else if current == target {
        Ok(TransitionPlan::NoOp)
    } else if step_allowed(current, target, force) {
        Ok(TransitionPlan::Apply { p2: life_cycle_byte(target) })
    } else {
        Err(ScllError::IllegalLifecycleTransition)
    }
}

/// Holds a requested transition against the life cycle. `force` allows the skip
/// to `SECURED` and nothing else.
pub fn check_transition(current: CardLifeCycle, target: CardLifeCycle, force: bool) -> (r: Result<
    TransitionPlan,
    ScllError,
>)
    ensures
        r == transition(current, target, force),
{
    match target {
        CardLifeCycle::Terminated => {
            return Err(ScllError::TerminateOutOfScope);
        },
        CardLifeCycle::Unknown(_) => {
            return Err(ScllError::IllegalLifecycleTransition);
        },
        _ => {},
    }
    if current == target {
        return Ok(TransitionPlan::NoOp);
    }
    let p2: u8 = match (current, target) {
        (CardLifeCycle::OpReady, CardLifeCycle::Initialized) => P2_INITIALIZED,
        (CardLifeCycle::Initialized, CardLifeCycle::Secured) => P2_SECURED,
        (CardLifeCycle::CardLocked, CardLifeCycle::Secured) => P2_SECURED,
        (CardLifeCycle::OpReady, CardLifeCycle::Secured) => {
            if !force {
                return Err(ScllError::IllegalLifecycleTransition);
            }
            P2_SECURED
        },
        (CardLifeCycle::Secured, CardLifeCycle::CardLocked) => P2_CARD_LOCKED,
        _ => {
            return Err(ScllError::IllegalLifecycleTransition);
        },
    };
    Ok(TransitionPlan::Apply { p2 })
}

/// `TERMINATED` is never a target, whatever the card's state and with or
/// without `force`.
pub proof fn law_terminated_is_never_a_target(current: CardLifeCycle, force: bool)
    ensures
        transition(current, CardLifeCycle::Terminated, force) == Err::<TransitionPlan, ScllError>(
            ScllError::TerminateOutOfScope,
        ),
{
}

/// Nothing leaves `TERMINATED`, nor a state that is not known.
pub proof fn law_nothing_leaves_terminated(
    current: CardLifeCycle,
    target: CardLifeCycle,
    force: bool,
)
    requires
        current is Terminated || current is Unknown,
    ensures
        transition(current, target, force) is Err,
{
}

/// Provisioning is one-way: a step that sends something goes to a larger life
/// cycle byte, except that a locked card can be unlocked.
pub proof fn law_provisioning_is_one_way(
    current: CardLifeCycle,
    target: CardLifeCycle,
    force: bool,
)
    requires
        transition(current, target, force) matches Ok(TransitionPlan::Apply { p2 }),
    ensures
        life_cycle_byte(current) < life_cycle_byte(target) || current is CardLocked
            && target is Secured,
{
}

/// Locking and unlocking undo each other, without `force`.
pub proof fn law_lock_is_reversible()
    ensures
        transition(CardLifeCycle::Secured, CardLifeCycle::CardLocked, false) == Ok::<
            TransitionPlan,
            ScllError,
        >(TransitionPlan::Apply { p2: 0x7F }),
        transition(CardLifeCycle::CardLocked, CardLifeCycle::Secured, false) == Ok::<
            TransitionPlan,
            ScllError,
        >(TransitionPlan::Apply { p2: 0x0F }),
{
}

/// A request for the state that the card is in sends nothing.
pub proof fn law_same_state_is_a_no_op(state: CardLifeCycle, force: bool)
    requires
        settable(state),
    ensures
        transition(state, state, force) == Ok::<TransitionPlan, ScllError>(TransitionPlan::NoOp),
{
}

/// `force` matters for the skip from `OP_READY` to `SECURED` and nowhere else.
pub proof fn law_force_only_skips_ahead(current: CardLifeCycle, target: CardLifeCycle)
    ensures
        transition(current, target, true) != transition(current, target, false) <==> (
        current is OpReady && target is Secured),
{
}

} // verus!
