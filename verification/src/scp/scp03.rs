//! The host side of SCP03 (GPC Amendment D): framing and decisions.
//!
//! INITIALIZE UPDATE is answered with diversification data, the key version, the
//! protocol, the option byte, the card's challenge and cryptogram, and, where the
//! card draws its challenges from a counter, that counter. EXTERNAL AUTHENTICATE
//! sends the host's cryptogram; its P1 is the security level of the channel.
use vstd::prelude::*;

use crate::backend::{
    gained, grew, Event, KeyHandle, Scp03Backend, Scp03Session, ScpMode,
};
use crate::buffers::{
    capdu_bytes, capdu_new, capdu_slice, field_bytes, field_copy, field_from_slice, field_slice,
    rapdu_bytes, Capdu, Field, Rapdu,
};
use crate::command::{push, BuildError};
use crate::error::{BackendError, ScllError};
use crate::limits::CAPDU_MAX;

verus! {

const INS_INITIALIZE_UPDATE: u8 = 0x50;

const INS_EXTERNAL_AUTHENTICATE: u8 = 0x82;

const SCP_ID_SCP03: u8 = 0x03;

/// Diversification data, key version, protocol and option byte.
const IU_PREFIX_LEN: usize = 13;

const SEQ_COUNTER_LEN: usize = 3;

/// Option bits that have no meaning here.
const I_RFU: u8 = 0x87;

/// Option bit: challenges are drawn from a counter.
const I_PSEUDO_RANDOM: u8 = 0x10;

/// Option bit: responses can carry a MAC.
const I_RMAC: u8 = 0x20;

/// Option bit: responses can be encrypted.
const I_RENC: u8 = 0x40;

/// The answer to INITIALIZE UPDATE.
#[derive(Debug, PartialEq, Eq)]
pub struct IuResponse {
    /// The key version that the card used.
    pub kvn: u8,
    pub i_param: u8,
    pub mode: ScpMode,
    pub card_challenge: Field,
    pub card_cryptogram: Field,
    /// Present exactly where challenges are drawn from a counter.
    pub sequence_counter: Option<[u8; 3]>,
}

/// The content of an [`IuResponse`].
pub struct IuFields {
    pub kvn: u8,
    pub i_param: u8,
    pub mode: ScpMode,
    pub card_challenge: Seq<u8>,
    pub card_cryptogram: Seq<u8>,
    pub sequence_counter: Option<Seq<u8>>,
}

impl View for IuResponse {
    type V = IuFields;

    open spec fn view(&self) -> IuFields {
        IuFields {
            kvn: self.kvn,
            i_param: self.i_param,
            mode: self.mode,
            card_challenge: field_bytes(self.card_challenge),
            card_cryptogram: field_bytes(self.card_cryptogram),
            sequence_counter: match self.sequence_counter {
                Some(c) => Some(c@),
                None => None,
            },
        }
    }
}

impl Clone for IuResponse {
    fn clone(&self) -> (r: IuResponse)
        ensures
            r@ == self@,
    {
        IuResponse {
            kvn: self.kvn,
            i_param: self.i_param,
            mode: self.mode,
            card_challenge: field_copy(&self.card_challenge),
            card_cryptogram: field_copy(&self.card_cryptogram),
            sequence_counter: self.sequence_counter,
        }
    }
}

/// An open SCP03 channel. The secrets stay with the backend.
#[derive(Debug)]
pub struct Scp03State {
    session: Scp03Session,
    i_param: u8,
    security_level: u8,
    kvn: u8,
}

/// The content of an [`Scp03State`].
pub struct Scp03Channel {
    pub session: Scp03Session,
    pub i_param: u8,
    pub security_level: u8,
    pub kvn: u8,
}

impl View for Scp03State {
    type V = Scp03Channel;

    closed spec fn view(&self) -> Scp03Channel {
        Scp03Channel {
            session: self.session,
            i_param: self.i_param,
            security_level: self.security_level,
            kvn: self.kvn,
        }
    }
}

/// `r` passes on what the backend returned.
pub open spec fn passes_on(
    r: Result<Seq<u8>, ScllError>,
    from: Result<Seq<u8>, BackendError>,
) -> bool {
    match from {
        Ok(bytes) => r == Ok::<Seq<u8>, ScllError>(bytes),
        Err(e) => r == Err::<Seq<u8>, ScllError>(ScllError::Backend(e)),
    }
}

/// The bytes of a command result.
pub open spec fn command_view(r: Result<Capdu, ScllError>) -> Result<Seq<u8>, ScllError> {
    match r {
        Ok(v) => Ok(capdu_bytes(v)),
        Err(e) => Err(e),
    }
}

/// The bytes of a response result.
pub open spec fn response_view(r: Result<Rapdu, ScllError>) -> Result<Seq<u8>, ScllError> {
    match r {
        Ok(v) => Ok(rapdu_bytes(v)),
        Err(e) => Err(e),
    }
}

/// What wrapping asked of the backend, and that its answer is passed on.
pub open spec fn wrapped03(
    before: Scp03Channel,
    after: Scp03Channel,
    event: Event,
    command: Seq<u8>,
    r: Result<Seq<u8>, ScllError>,
) -> bool {
    match event {
        Event::Wrap03 { session, after: next, command: sent, result } => {
            &&& session == before.session
            &&& sent == command
            &&& after == (Scp03Channel { session: next, ..before })
            &&& passes_on(r, result)
        },
        _ => false,
    }
}

/// What unwrapping asked of the backend, and that its answer is passed on.
pub open spec fn unwrapped03(
    before: Scp03Channel,
    after: Scp03Channel,
    event: Event,
    response: Seq<u8>,
    r: Result<Seq<u8>, ScllError>,
) -> bool {
    match event {
        Event::Unwrap03 { session, after: next, response: received, result } => {
            &&& session == before.session
            &&& received == response
            &&& after == (Scp03Channel { session: next, ..before })
            &&& passes_on(r, result)
        },
        _ => false,
    }
}

impl Scp03State {
    /// The backend's session.
    pub fn session(&self) -> (r: Scp03Session)
        ensures
            r == self@.session,
    {
        self.session
    }

    /// The key version that the card authenticated with.
    pub fn kvn(&self) -> (r: u8)
        ensures
            r == self@.kvn,
    {
        self.kvn
    }

    /// The card's option byte.
    pub fn i_param(&self) -> (r: u8)
        ensures
            r == self@.i_param,
    {
        self.i_param
    }

    /// The security level of the channel.
    pub fn security_level(&self) -> (r: u8)
        ensures
            r == self@.security_level,
    {
        self.security_level
    }

    /// Protects a command for sending.
    pub fn wrap_command<B: Scp03Backend>(&mut self, backend: &mut B, capdu: &[u8]) -> (r: Result<
        Capdu,
        ScllError,
    >)
        ensures
            exists|event: Event| #[trigger]
                final(backend).events() == old(backend).events().push(event) && wrapped03(
                    old(self)@,
                    final(self)@,
                    event,
                    capdu@,
                    command_view(r),
                ),
    {
        match backend.scp03_wrap_command(&mut self.session, capdu) {
            Ok(v) => Ok(v),
            Err(e) => Err(ScllError::Backend(e)),
        }
    }

    /// Verifies a response and strips its protection.
    pub fn unwrap_response<B: Scp03Backend>(&mut self, backend: &mut B, rapdu: &[u8]) -> (r: Result<
        Rapdu,
        ScllError,
    >)
        ensures
            exists|event: Event| #[trigger]
                final(backend).events() == old(backend).events().push(event) && unwrapped03(
                    old(self)@,
                    final(self)@,
                    event,
                    rapdu@,
                    response_view(r),
                ),
    {
        match backend.scp03_unwrap_response(&mut self.session, rapdu) {
            Ok(v) => Ok(v),
            Err(e) => Err(ScllError::Backend(e)),
        }
    }
}

/// The INITIALIZE UPDATE command.
pub open spec fn initialize_update(kvn: u8, host_challenge: Seq<u8>) -> Seq<u8> {
    seq![0x80u8, 0x50u8, kvn, 0x00u8, host_challenge.len() as u8] + host_challenge + seq![0x00u8]
}

/// The EXTERNAL AUTHENTICATE command before it is protected.
pub open spec fn external_authenticate(level: u8, host_cryptogram: Seq<u8>) -> Seq<u8> {
    seq![0x84u8, 0x82u8, level, 0x00u8, host_cryptogram.len() as u8] + host_cryptogram
}

/// Appends, or fails as a builder does.
pub(crate) fn extend(apdu: &mut Capdu, src: &[u8]) -> (r: Result<(), ScllError>)
    ensures
        r is Ok <==> capdu_bytes(*old(apdu)).len() + src@.len() <= CAPDU_MAX,
        r is Ok ==> capdu_bytes(*final(apdu)) == capdu_bytes(*old(apdu)) + src@,
        r matches Err(e) ==> e == ScllError::Build(BuildError::Overflow) && *final(apdu) == *old(
            apdu,
        ),
{
    match push(apdu, src) {
        Ok(()) => Ok(()),
        Err(e) => Err(ScllError::Build(e)),
    }
}

/// Builds INITIALIZE UPDATE; a challenge of more than 255 bytes is refused.
pub fn iu_command(kvn: u8, host_challenge: &[u8]) -> (r: Result<Capdu, ScllError>)
    ensures
        match r {
            Ok(apdu) => host_challenge@.len() <= 255 && capdu_bytes(apdu) == initialize_update(
                kvn,
                host_challenge@,
            ),
            Err(e) => host_challenge@.len() > 255 && e == ScllError::Build(BuildError::Overflow),
        },
{
    if host_challenge.len() > 255 {
        return Err(ScllError::Build(BuildError::Overflow));
    }
    let lc: u8 = host_challenge.len() as u8;
    let mut apdu: Capdu = capdu_new();
    extend(&mut apdu, &[0x80, INS_INITIALIZE_UPDATE, kvn, 0x00, lc])?;
    extend(&mut apdu, host_challenge)?;
    extend(&mut apdu, &[0x00])?;
    assert(capdu_bytes(apdu) =~= initialize_update(kvn, host_challenge@));
    Ok(apdu)
}

/// Builds EXTERNAL AUTHENTICATE before it is protected.
fn ea_plaintext(security_level: u8, host_cryptogram: &[u8]) -> (r: Result<Capdu, ScllError>)
    requires
        host_cryptogram@.len() <= 16,
    ensures
        r matches Ok(apdu) && capdu_bytes(apdu) == external_authenticate(
            security_level,
            host_cryptogram@,
        ),
{
    let lc: u8 = host_cryptogram.len() as u8;
    let mut apdu: Capdu = capdu_new();
    extend(&mut apdu, &[0x84, INS_EXTERNAL_AUTHENTICATE, security_level, 0x00, lc])?;
    extend(&mut apdu, host_cryptogram)?;
    assert(capdu_bytes(apdu) =~= external_authenticate(security_level, host_cryptogram@));
    Ok(apdu)
}

/// An option byte that this library implements: no bit without a meaning, and
/// response encryption only together with response MACs.
pub open spec fn option_in_scope(i_param: u8) -> bool {
    i_param & 0x87 == 0 && (i_param & 0x40 != 0 ==> i_param & 0x20 != 0)
}

/// Whether this library implements an option byte.
pub fn i_supported(i_param: u8) -> (r: bool)
    ensures
        r == option_in_scope(i_param),
{
    if i_param & I_RFU != 0 {
        return false;
    }
    !(i_param & I_RENC != 0 && i_param & I_RMAC == 0)
}

/// Length of the answer to INITIALIZE UPDATE under an option byte.
pub open spec fn iu_len(i_param: u8) -> nat {
    13 + 2 * ScpMode::of(i_param).width() + (if i_param & 0x10 != 0 {
        3nat
    } else {
        0nat
    })
}

/// What an answer to INITIALIZE UPDATE says.
pub open spec fn iu_fields(s: Seq<u8>) -> Result<IuFields, ScllError> {
    if s.len() < 13 || s[11] != 0x03 {
        Err(ScllError::ScpProtocolUnsupported)
    } else if !option_in_scope(s[12]) {
        Err(ScllError::NoCommonSecurityLevel)
    } else if s.len() != iu_len(s[12]) {
        Err(ScllError::ScpProtocolUnsupported)
    } else {
        let w = ScpMode::of(s[12]).width() as int;
        Ok(
            IuFields {
                kvn: s[10],
                i_param: s[12],
                mode: ScpMode::of(s[12]),
                card_challenge: s.subrange(13, 13 + w),
                card_cryptogram: s.subrange(13 + w, 13 + 2 * w),
                sequence_counter: if s[12] & 0x10 != 0 {
                    Some(s.subrange(13 + 2 * w, 16 + 2 * w))
                } else {
                    None
                },
            },
        )
    }
}

/// The outcome of [`parse_iu_response`].
pub open spec fn iu_view(r: Result<IuResponse, ScllError>) -> Result<IuFields, ScllError> {
    match r {
        Ok(iu) => Ok(iu@),
        Err(e) => Err(e),
    }
}

/// The answers to INITIALIZE UPDATE that are accepted have one of four lengths,
/// and carry a counter exactly where the option byte says that challenges are
/// drawn from one.
pub proof fn law_iu_lengths(s: Seq<u8>)
    requires
        iu_fields(s) is Ok,
    ensures
        s.len() == 29 || s.len() == 32 || s.len() == 45 || s.len() == 48,
        iu_fields(s)->Ok_0.sequence_counter is Some <==> s[12] & 0x10 != 0,
        iu_fields(s)->Ok_0.card_challenge.len() == iu_fields(s)->Ok_0.mode.width(),
        iu_fields(s)->Ok_0.card_cryptogram.len() == iu_fields(s)->Ok_0.mode.width(),
{
}

/// A field out of a longer answer.
fn field_at(bytes: &[u8], from: usize, len: usize) -> (r: Field)
    requires
        from + len <= bytes.len(),
        len <= 16,
    ensures
        field_bytes(r) == bytes@.subrange(from as int, from + len),
{
    match field_from_slice(&bytes[from..from + len]) {
        Ok(f) => f,
        Err(_) => vstd::pervasive::unreached(),
    }
}

/// Reads the answer to INITIALIZE UPDATE, without its status word.
pub fn parse_iu_response(bytes: &[u8]) -> (r: Result<IuResponse, ScllError>)
    ensures
        iu_view(r) == iu_fields(bytes@),
{
    if bytes.len() < IU_PREFIX_LEN || bytes[11] != SCP_ID_SCP03 {
        return Err(ScllError::ScpProtocolUnsupported);
    }
    let i_param: u8 = bytes[12];
    if !i_supported(i_param) {
        return Err(ScllError::NoCommonSecurityLevel);
    }
    let mode: ScpMode = ScpMode::from_i(i_param);
    let field: usize = mode.field_len();
    let pseudo: bool = i_param & I_PSEUDO_RANDOM != 0;
    let expected: usize = IU_PREFIX_LEN + 2 * field + if pseudo {
        SEQ_COUNTER_LEN
    } else {
        0
    };
    if bytes.len() != expected {
        return Err(ScllError::ScpProtocolUnsupported);
    }
    let seq_start: usize = IU_PREFIX_LEN + 2 * field;
    let sequence_counter: Option<[u8; 3]> = if pseudo {
        let c: [u8; 3] = [bytes[seq_start], bytes[seq_start + 1], bytes[seq_start + 2]];
        assert(c@ =~= bytes@.subrange(seq_start as int, seq_start + 3));
        Some(c)
    } else {
        None
    };
    Ok(
        IuResponse {
            kvn: bytes[10],
            i_param,
            mode,
            card_challenge: field_at(bytes, IU_PREFIX_LEN, field),
            card_cryptogram: field_at(bytes, IU_PREFIX_LEN + field, field),
            sequence_counter,
        },
    )
}

/// The level bits that a card can give: command MAC and encryption always,
/// response MAC and encryption where its option byte says so.
pub open spec fn allowed_level(i_param: u8) -> u8 {
    let r_mac = if i_param & 0x20 != 0 {
        0x10u8
    } else {
        0u8
    };
    let r_enc = if i_param & 0x40 != 0 {
        0x20u8
    } else {
        0u8
    };
    0x03u8 | r_mac | r_enc
}

/// The requested level without what the card cannot give.
pub open spec fn capped_level(i_param: u8, requested: u8) -> Result<u8, ScllError> {
    if requested & allowed_level(i_param) == 0 {
        Err(ScllError::NoCommonSecurityLevel)
    } else {
        Ok(requested & allowed_level(i_param))
    }
}

/// Caps a requested level to what the card can give.
pub fn cap_security_level(i_param: u8, requested: u8) -> (r: Result<u8, ScllError>)
    ensures
        r == capped_level(i_param, requested),
{
    let mut r_mac: u8 = 0;
    if i_param & I_RMAC != 0 {
        r_mac = 0x10;
    }
    let mut r_enc: u8 = 0;
    if i_param & I_RENC != 0 {
        r_enc = 0x20;
    }
    let effective: u8 = requested & (0x03 | r_mac | r_enc);
    if effective == 0 {
        return Err(ScllError::NoCommonSecurityLevel);
    }
    Ok(effective)
}

/// Capping never adds a bit to the requested level, never leaves one that the
/// card cannot give, and never takes away one that it can.
pub proof fn law_capping_only_removes(i_param: u8, requested: u8, bit: u8)
    requires
        capped_level(i_param, requested) is Ok,
    ensures
        capped_level(i_param, requested)->Ok_0 & bit != 0 <==> (requested & allowed_level(i_param))
            & bit != 0,
        capped_level(i_param, requested)->Ok_0 & bit != 0 ==> requested & bit != 0 && allowed_level(
            i_param,
        ) & bit != 0,
        capped_level(i_param, requested)->Ok_0 != 0,
{
    let a = allowed_level(i_param);
    assert((requested & a) & bit != 0 ==> requested & bit != 0 && a & bit != 0) by (bit_vector);
}

/// What is asked of the backend once the card is trusted: the host's cryptogram
/// and the protection of EXTERNAL AUTHENTICATE. `from` is where these calls
/// start among the new events.
pub open spec fn begin_finish(
    ev: Seq<Event>,
    from: int,
    session: Scp03Session,
    iu: IuFields,
    host: Seq<u8>,
    level: u8,
    r: Result<(Scp03Channel, Seq<u8>), ScllError>,
) -> bool {
    &&& ev.len() > from
    &&& match ev[from] {
        Event::HostCryptogram03 { session: s, host: h, card, result } => {
            &&& s == session && h == host && card == iu.card_challenge
            &&& match result {
                Err(e) => ev.len() == from + 1 && r == Err::<(Scp03Channel, Seq<u8>), ScllError>(
                    ScllError::Backend(e),
                ),
                Ok(cryptogram) => {
                    &&& ev.len() == from + 2
                    &&& match ev[from + 1] {
                        Event::Wrap03 { session: s, after, command, result } => {
                            &&& s == session
                            &&& command == external_authenticate(level, cryptogram)
                            &&& r == (match result {
                                Err(e) => Err::<(Scp03Channel, Seq<u8>), ScllError>(
                                    ScllError::Backend(e),
                                ),
                                Ok(ea) => Ok(
                                    (
                                        Scp03Channel {
                                            session: after,
                                            i_param: iu.i_param,
                                            security_level: level,
                                            kvn: iu.kvn,
                                        },
                                        ea,
                                    ),
                                ),
                            })
                        },
                        _ => false,
                    }
                },
            }
        },
        _ => false,
    }
}

/// What is decided once the card's cryptogram is right: its challenge is held
/// against the counter, where there is one, and the level is capped.
pub open spec fn begin_checked(
    ev: Seq<Event>,
    session: Scp03Session,
    iu: IuFields,
    enc: KeyHandle,
    requested: u8,
    host: Seq<u8>,
    aid: Seq<u8>,
    r: Result<(Scp03Channel, Seq<u8>), ScllError>,
) -> bool {
    match iu.sequence_counter {
        None => begin_level(ev, 2, session, iu, requested, host, r),
        Some(counter) => ev.len() > 2 && match ev[2] {
            Event::CardChallenge03 { enc: k, mode, counter: c, aid: a, result } => {
                &&& k == enc && mode == iu.mode && c == counter && a == aid
                &&& match result {
                    Err(e) => ev.len() == 3 && r == Err::<(Scp03Channel, Seq<u8>), ScllError>(
                        ScllError::Backend(e),
                    ),
                    Ok(challenge) => if challenge != iu.card_challenge {
                        ev.len() == 3 && r == Err::<(Scp03Channel, Seq<u8>), ScllError>(
                            ScllError::CardChallengeFail,
                        )
                    } else {
                        begin_level(ev, 3, session, iu, requested, host, r)
                    },
                }
            },
            _ => false,
        },
    }
}

/// The level is capped; where nothing is left the channel is not opened.
pub open spec fn begin_level(
    ev: Seq<Event>,
    from: int,
    session: Scp03Session,
    iu: IuFields,
    requested: u8,
    host: Seq<u8>,
    r: Result<(Scp03Channel, Seq<u8>), ScllError>,
) -> bool {
    match capped_level(iu.i_param, requested) {
        Err(e) => ev.len() == from && r == Err::<(Scp03Channel, Seq<u8>), ScllError>(e),
        Ok(level) => begin_finish(ev, from, session, iu, host, level, r),
    }
}

/// How a channel is opened from the card's answer: the exact calls that are made
/// of the backend, in order, and what their results lead to.
pub open spec fn begun03(
    ev: Seq<Event>,
    enc: KeyHandle,
    mac: KeyHandle,
    kvn_expected: u8,
    requested: u8,
    host: Seq<u8>,
    aid: Seq<u8>,
    answer: Seq<u8>,
    r: Result<(Scp03Channel, Seq<u8>), ScllError>,
) -> bool {
    match iu_fields(answer) {
        Err(e) => ev.len() == 0 && r == Err::<(Scp03Channel, Seq<u8>), ScllError>(e),
        Ok(iu) => if kvn_expected != 0 && iu.kvn != kvn_expected {
            ev.len() == 0 && r == Err::<(Scp03Channel, Seq<u8>), ScllError>(ScllError::KvnMismatch)
        } else {
            &&& ev.len() > 0
            &&& match ev[0] {
                Event::Derive03 { enc: ke, mac: km, mode, host: h, card, result } => {
                    &&& ke == enc && km == mac && mode == iu.mode && h == host && card
                        == iu.card_challenge
                    &&& match result {
                        Err(e) => ev.len() == 1 && r == Err::<(Scp03Channel, Seq<u8>), ScllError>(
                            ScllError::Backend(e),
                        ),
                        Ok(session) => ev.len() > 1 && match ev[1] {
                            Event::CardCryptogram03 { session: s, host: h, card, result } => {
                                &&& s == session && h == host && card == iu.card_challenge
                                &&& match result {
                                    Err(e) => ev.len() == 2 && r == Err::<
                                        (Scp03Channel, Seq<u8>),
                                        ScllError,
                                    >(ScllError::Backend(e)),
                                    Ok(cryptogram) => if cryptogram != iu.card_cryptogram {
                                        ev.len() == 2 && r == Err::<
                                            (Scp03Channel, Seq<u8>),
                                            ScllError,
                                        >(ScllError::CardCryptogramFail)
                                    } else {
                                        begin_checked(
                                            ev,
                                            session,
                                            iu,
                                            enc,
                                            requested,
                                            host,
                                            aid,
                                            r,
                                        )
                                    },
                                }
                            },
                            _ => false,
                        },
                    }
                },
                _ => false,
            }
        },
    }
}

/// No channel comes of an answer unless the backend computed exactly the cryptogram that
/// the card sent, and, where the card sent a counter, exactly its challenge.
pub proof fn law_only_a_checked_card_is_authenticated_to(
    ev: Seq<Event>,
    enc: KeyHandle,
    mac: KeyHandle,
    kvn_expected: u8,
    requested: u8,
    host: Seq<u8>,
    aid: Seq<u8>,
    answer: Seq<u8>,
    r: Result<(Scp03Channel, Seq<u8>), ScllError>,
)
    requires
        begun03(ev, enc, mac, kvn_expected, requested, host, aid, answer, r),
        r is Ok,
    ensures
        ({
            let iu = iu_fields(answer)->Ok_0;
            &&& iu_fields(answer) is Ok
            &&& kvn_expected == 0 || iu.kvn == kvn_expected
            &&& ev[0] matches Event::Derive03 { enc: e, mac: m, mode, host: h, card, result }
            &&& e == enc && m == mac && h == host && card == iu.card_challenge
            &&& ev[1] matches Event::CardCryptogram03 { session, host: h2, card: c2, result: seen }
            &&& result == Ok::<Scp03Session, BackendError>(session)
            &&& h2 == host && c2 == iu.card_challenge
            &&& seen == Ok::<Seq<u8>, BackendError>(iu.card_cryptogram)
            &&& iu.sequence_counter matches Some(counter) ==> (ev[2] matches Event::CardChallenge03 {
                enc: k,
                mode: m3,
                counter: c3,
                aid: a3,
                result: r3,
            } && k == enc && c3 == counter && a3 == aid && r3 == Ok::<Seq<u8>, BackendError>(
                iu.card_challenge,
            ))
        }),
{
}

/// The content of a begin result.
pub open spec fn begin_view(r: Result<(Scp03State, Capdu), ScllError>) -> Result<
    (Scp03Channel, Seq<u8>),
    ScllError,
> {
    match r {
        Ok((state, ea)) => Ok((state@, capdu_bytes(ea))),
        Err(e) => Err(e),
    }
}

/// Opens a channel from the card's answer to INITIALIZE UPDATE and returns the
/// protected EXTERNAL AUTHENTICATE. The card is not authenticated to unless its
/// cryptogram is right and, where it sent a counter, its challenge is the one
/// that follows from the counter and `invoker_aid`.
pub fn begin<B: Scp03Backend>(
    backend: &mut B,
    static_enc: &KeyHandle,
    static_mac: &KeyHandle,
    kvn_expected: u8,
    requested_level: u8,
    host_challenge: &[u8],
    invoker_aid: &[u8],
    iu_response: &[u8],
) -> (r: Result<(Scp03State, Capdu), ScllError>)
    ensures
        grew(old(backend).events(), final(backend).events()),
        begun03(
            gained(old(backend).events(), final(backend).events()),
            *static_enc,
            *static_mac,
            kvn_expected,
            requested_level,
            host_challenge@,
            invoker_aid@,
            iu_response@,
            begin_view(r),
        ),
{
    let iu: IuResponse = parse_iu_response(iu_response)?;
    if kvn_expected != 0 && iu.kvn != kvn_expected {
        return Err(ScllError::KvnMismatch);
    }
    let card_challenge: &[u8] = field_slice(&iu.card_challenge);
    let mut session: Scp03Session = match backend.scp03_derive_session(
        static_enc,
        static_mac,
        iu.mode,
        host_challenge,
        card_challenge,
    ) {
        Ok(s) => s,
        Err(e) => return Err(ScllError::Backend(e)),
    };
    let expected_card: Field = match backend.scp03_card_cryptogram(
        &session,
        host_challenge,
        card_challenge,
    ) {
        Ok(c) => c,
        Err(e) => return Err(ScllError::Backend(e)),
    };
    if !backend.ct_eq(field_slice(&expected_card), field_slice(&iu.card_cryptogram)) {
        return Err(ScllError::CardCryptogramFail);
    }
    if let Some(seq_counter) = iu.sequence_counter {
        let expected: Field = match backend.scp03_pseudo_card_challenge(
            static_enc,
            iu.mode,
            &seq_counter,
            invoker_aid,
        ) {
            Ok(c) => c,
            Err(e) => return Err(ScllError::Backend(e)),
        };
        if !backend.ct_eq(field_slice(&expected), card_challenge) {
            return Err(ScllError::CardChallengeFail);
        }
    }
    let security_level: u8 = cap_security_level(iu.i_param, requested_level)?;
    let host_cryptogram: Field = match backend.scp03_host_cryptogram(
        &session,
        host_challenge,
        card_challenge,
    ) {
        Ok(c) => c,
        Err(e) => return Err(ScllError::Backend(e)),
    };
    let ea_plain: Capdu = ea_plaintext(security_level, field_slice(&host_cryptogram))?;
    match backend.scp03_wrap_command(&mut session, capdu_slice(&ea_plain)) {
        Ok(ea) => Ok(
            (Scp03State { session, i_param: iu.i_param, security_level, kvn: iu.kvn }, ea),
        ),
        Err(e) => Err(ScllError::Backend(e)),
    }
}

} // verus!
