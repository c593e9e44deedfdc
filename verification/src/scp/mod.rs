//! Secure channels: which one to open, and what an open one is.
use vstd::prelude::*;

pub mod scp02;
pub mod scp03;

use crate::model::ScpVariant;
use crate::report::ScpProtocol;
use crate::scp::scp02::Scp02State;
use crate::scp::scp03::Scp03State;

verus! {

/// An open secure channel.
#[derive(Debug)]
pub enum ScpSession {
    Scp03(Scp03State),
    Scp02(Scp02State),
}

impl ScpSession {
    /// The security level that was fixed when the channel was opened.
    pub fn security_level(&self) -> (r: u8)
        ensures
            r == level_of(*self),
    {
        match self {
            ScpSession::Scp03(s) => s.security_level(),
            ScpSession::Scp02(s) => s.security_level(),
        }
    }

    /// The option byte of the channel.
    pub fn i_param(&self) -> (r: u8)
        ensures
            r == option_of(*self),
    {
        match self {
            ScpSession::Scp03(s) => s.i_param(),
            ScpSession::Scp02(s) => s.i_param(),
        }
    }

    /// The key version that the card authenticated with.
    pub fn kvn(&self) -> (r: u8)
        ensures
            r == version_of(*self),
    {
        match self {
            ScpSession::Scp03(s) => s.kvn(),
            ScpSession::Scp02(s) => s.kvn(),
        }
    }

    /// The protocol of the channel.
    pub fn protocol(&self) -> (r: ScpProtocol)
        ensures
            r == protocol_of(*self),
    {
        match self {
            ScpSession::Scp03(_) => ScpProtocol::Scp03,
            ScpSession::Scp02(_) => ScpProtocol::Scp02,
        }
    }

    /// A number that tells the sessions of one backend apart: the slot that the
    /// backend holds the session in.
    pub fn session_id(&self) -> (r: u64)
        ensures
            r == session_number(*self),
    {
        match self {
            ScpSession::Scp03(s) => s.session().index() as u64,
            ScpSession::Scp02(s) => s.session().index() as u64,
        }
    }
}

/// The protocol of a channel.
pub open spec fn protocol_of(s: ScpSession) -> ScpProtocol {
    match s {
        ScpSession::Scp03(_) => ScpProtocol::Scp03,
        ScpSession::Scp02(_) => ScpProtocol::Scp02,
    }
}

/// The security level of a channel.
pub open spec fn level_of(s: ScpSession) -> u8 {
    match s {
        ScpSession::Scp03(st) => st@.security_level,
        ScpSession::Scp02(st) => st@.security_level,
    }
}

/// The option byte of a channel.
pub open spec fn option_of(s: ScpSession) -> u8 {
    match s {
        ScpSession::Scp03(st) => st@.i_param,
        ScpSession::Scp02(st) => st@.i_param,
    }
}

/// The key version of a channel.
pub open spec fn version_of(s: ScpSession) -> u8 {
    match s {
        ScpSession::Scp03(st) => st@.kvn,
        ScpSession::Scp02(st) => st@.kvn,
    }
}

/// The backend's slot of a channel.
pub open spec fn session_number(s: ScpSession) -> u64 {
    match s {
        ScpSession::Scp03(st) => st@.session.0 as u64,
        ScpSession::Scp02(st) => st@.session.0 as u64,
    }
}

/// The option bytes of the usable SCP03 variants.
pub open spec fn usable_scp03(v: ScpVariant) -> Option<u8> {
    match v {
        ScpVariant::Scp03 { i_param } => if scp03::option_in_scope(i_param) {
            Some(i_param)
        } else {
            None
        },
        ScpVariant::Scp02 { .. } => None,
    }
}

/// The highest usable SCP03 option byte.
pub open spec fn highest_scp03(advertised: Seq<ScpVariant>) -> Option<u8>
    decreases advertised.len(),
{
    if advertised.len() == 0 {
        None
    } else {
        match (highest_scp03(advertised.drop_last()), usable_scp03(advertised.last())) {
            (Some(a), Some(b)) => Some(
                if a >= b {
                    a
                } else {
                    b
                },
            ),
            (Some(a), None) => Some(a),
            (None, other) => other,
        }
    }
}

/// The first SCP02 variant.
pub open spec fn first_scp02(advertised: Seq<ScpVariant>) -> Option<ScpVariant>
    decreases advertised.len(),
{
    if advertised.len() == 0 {
        None
    } else if advertised[0] is Scp02 {
        Some(advertised[0])
    } else {
        first_scp02(advertised.skip(1))
    }
}

/// The variant to open: what the caller insists on, else the highest usable
/// SCP03, else the first SCP02.
pub open spec fn selected(advertised: Seq<ScpVariant>, force: Option<ScpVariant>) -> Option<
    ScpVariant,
> {
    match force {
        Some(v) => Some(v),
        None => match highest_scp03(advertised) {
            Some(i_param) => Some(ScpVariant::Scp03 { i_param }),
            None => first_scp02(advertised),
        },
    }
}

/// Chooses the variant to open.
pub fn select(advertised: &[ScpVariant], force: Option<ScpVariant>) -> (r: Option<ScpVariant>)
    ensures
        r == selected(advertised@, force),
{
    if let Some(forced) = force {
        return Some(forced);
    }
    let mut best: Option<u8> = None;
    let mut i: usize = 0;
    assert(advertised@.take(0) =~= Seq::empty());
    while i < advertised.len()
        invariant
            i <= advertised@.len(),
            best == highest_scp03(advertised@.take(i as int)),
        decreases advertised@.len() - i,
    {
        proof {
            assert(advertised@.take(i + 1).drop_last() =~= advertised@.take(i as int));
            assert(advertised@.take(i + 1).last() == advertised@[i as int]);
        }
        if let ScpVariant::Scp03 { i_param } = advertised[i] {
            if scp03::i_supported(i_param) {
                best = match best {
                    Some(b) => Some(
                        if b >= i_param {
                            b
                        } else {
                            i_param
                        },
                    ),
                    None => Some(i_param),
                };
            }
        }
        i = i + 1;
    }
    assert(advertised@.take(i as int) =~= advertised@);
    if let Some(i_param) = best {
        return Some(ScpVariant::Scp03 { i_param });
    }
    let mut k: usize = 0;
    assert(advertised@.skip(0) =~= advertised@);
    while k < advertised.len()
        invariant
            k <= advertised@.len(),
            force is None,
            highest_scp03(advertised@) is None,
            first_scp02(advertised@) == first_scp02(advertised@.skip(k as int)),
        decreases advertised@.len() - k,
    {
        assert(advertised@.skip(k as int)[0] == advertised@[k as int]);
        if let ScpVariant::Scp02 { i_param } = advertised[k] {
            return Some(ScpVariant::Scp02 { i_param });
        }
        assert(advertised@.skip(k as int).skip(1) =~= advertised@.skip(k + 1));
        k = k + 1;
    }
    None
}

/// A caller's choice wins. Without one, a usable SCP03 variant is preferred, and
/// of several the one with the highest option byte; SCP02 is chosen only where no
/// SCP03 variant is usable; and something is chosen whenever anything usable is
/// advertised.
pub proof fn law_selection_prefers_scp03(
    advertised: Seq<ScpVariant>,
    force: Option<ScpVariant>,
    i: int,
)
    requires
        0 <= i < advertised.len(),
    ensures
        force is Some ==> selected(advertised, force) == force,
        force is None && usable_scp03(advertised[i]) is Some ==> (selected(advertised, force)
            matches Some(ScpVariant::Scp03 { i_param }) && i_param >= usable_scp03(
            advertised[i],
        )->Some_0 && advertised.contains(ScpVariant::Scp03 { i_param })
            && scp03::option_in_scope(i_param)),
        force is None && (selected(advertised, force) matches Some(ScpVariant::Scp02 { i_param }))
            ==> usable_scp03(advertised[i]) is None,
        force is None && advertised[i] is Scp02 ==> selected(advertised, force) is Some,
{
    lemma_highest(advertised, i);
    lemma_first_scp02(advertised, i);
}

proof fn lemma_highest(advertised: Seq<ScpVariant>, i: int)
    requires
        0 <= i < advertised.len(),
    ensures
        usable_scp03(advertised[i]) matches Some(x) ==> (highest_scp03(advertised) matches Some(h)
            && h >= x),
        highest_scp03(advertised) matches Some(h) ==> advertised.contains(
            ScpVariant::Scp03 { i_param: h },
        ) && scp03::option_in_scope(h),
    decreases advertised.len(),
{
    let init = advertised.drop_last();
    if i < init.len() {
        lemma_highest(init, i);
    } else if init.len() > 0 {
        lemma_highest(init, 0);
    }
    match highest_scp03(advertised) {
        Some(h) => {
            if usable_scp03(advertised.last()) == Some(h) {
                assert(advertised[advertised.len() - 1] == ScpVariant::Scp03 { i_param: h });
            } else {
                assert(highest_scp03(init) == Some(h));
                let k = choose|k: int|
                    0 <= k < init.len() && init[k] == ScpVariant::Scp03 { i_param: h };
                assert(advertised[k] == ScpVariant::Scp03 { i_param: h });
            }
        },
        None => {},
    }
}

proof fn lemma_first_scp02(advertised: Seq<ScpVariant>, i: int)
    requires
        0 <= i < advertised.len(),
    ensures
        advertised[i] is Scp02 ==> first_scp02(advertised) is Some,
        first_scp02(advertised) matches Some(v) ==> v is Scp02,
    decreases advertised.len(),
{
    if !(advertised[0] is Scp02) && advertised.len() == 1 {
        assert(first_scp02(advertised.skip(1)) is None);
    } else if !(advertised[0] is Scp02) {
        if i == 0 {
            lemma_first_scp02(advertised.skip(1), 0);
        } else {
            assert(advertised.skip(1)[i - 1] == advertised[i]);
            lemma_first_scp02(advertised.skip(1), i - 1);
        }
    }
}

} // verus!
