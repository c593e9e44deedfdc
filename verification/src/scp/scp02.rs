//! The host side of SCP02 (GPCS v2.3.1 Appendix E): framing and decisions.
//!
//! INITIALIZE UPDATE is answered with 28 bytes: diversification data, the key
//! version, the protocol, a sequence counter, the card's challenge and its
//! cryptogram. The option byte is not among them; it comes from the card's
//! recognition data.
use vstd::prelude::*;

use crate::backend::{gained, grew, Event, KeyHandle, Scp02Backend, Scp02Session};
use crate::buffers::{capdu_bytes, capdu_new, capdu_slice, Capdu, Rapdu};
use crate::error::{BackendError, ScllError};
use crate::scp::scp03::{
    command_view, extend, external_authenticate, passes_on, response_view,
};

verus! {

const INS_INITIALIZE_UPDATE: u8 = 0x50;

const INS_EXTERNAL_AUTHENTICATE: u8 = 0x82;

const SCP_ID_SCP02: u8 = 0x02;

const IU_RESPONSE_LEN: usize = 28;

/// The answer to INITIALIZE UPDATE.
#[derive(Debug, Clone, Copy, PartialEq, Eq)]
pub struct IuResponse {
    /// The key version that the card used.
    pub kvn: u8,
    pub seq_counter: [u8; 2],
    pub card_challenge: [u8; 6],
    pub card_cryptogram: [u8; 8],
}

/// The content of an [`IuResponse`].
pub struct IuFields {
    pub kvn: u8,
    pub seq_counter: Seq<u8>,
    pub card_challenge: Seq<u8>,
    pub card_cryptogram: Seq<u8>,
}

impl View for IuResponse {
    type V = IuFields;

    open spec fn view(&self) -> IuFields {
        IuFields {
            kvn: self.kvn,
            seq_counter: self.seq_counter@,
            card_challenge: self.card_challenge@,
            card_cryptogram: self.card_cryptogram@,
        }
    }
}

/// An open SCP02 channel. The secrets stay with the backend.
#[derive(Debug)]
pub struct Scp02State {
    session: Scp02Session,
    i_param: u8,
    security_level: u8,
    kvn: u8,
}

/// The content of an [`Scp02State`].
pub struct Scp02Channel {
    pub session: Scp02Session,
    pub i_param: u8,
    pub security_level: u8,
    pub kvn: u8,
}

impl View for Scp02State {
    type V = Scp02Channel;

    closed spec fn view(&self) -> Scp02Channel {
        Scp02Channel {
            session: self.session,
            i_param: self.i_param,
            security_level: self.security_level,
            kvn: self.kvn,
        }
    }
}

/// What wrapping asked of the backend, and that its answer is passed on.
pub open spec fn wrapped02(
    before: Scp02Channel,
    after: Scp02Channel,
    event: Event,
    command: Seq<u8>,
    r: Result<Seq<u8>, ScllError>,
) -> bool {
    match event {
        Event::Wrap02 { session, after: next, command: sent, result } => {
            &&& session == before.session
            &&& sent == command
            &&& after == (Scp02Channel { session: next, ..before })
            &&& passes_on(r, result)
        },
        _ => false,
    }
}

/// What unwrapping asked of the backend, and that its answer is passed on.
pub open spec fn unwrapped02(
    before: Scp02Channel,
    after: Scp02Channel,
    event: Event,
    response: Seq<u8>,
    r: Result<Seq<u8>, ScllError>,
) -> bool {
    match event {
        Event::Unwrap02 { session, after: next, response: received, result } => {
            &&& session == before.session
            &&& received == response
            &&& after == (Scp02Channel { session: next, ..before })
            &&& passes_on(r, result)
        },
        _ => false,
    }
}

impl Scp02State {
    /// The backend's session.
    pub fn session(&self) -> (r: Scp02Session)
        ensures
            r == self@.session,
    {
        self.session
    }

    /// The key version that the card authenticated with.
    pub fn kvn(&self) -> (r: u8)
        ensures
            r == self@.kvn,
    {
        self.kvn
    }

    /// The negotiated option byte.
    pub fn i_param(&self) -> (r: u8)
        ensures
            r == self@.i_param,
    {
        self.i_param
    }

    /// The security level of the channel.
    pub fn security_level(&self) -> (r: u8)
        ensures
            r == self@.security_level,
    {
        self.security_level
    }

    /// Protects a command for sending.
    pub fn wrap_command<B: Scp02Backend>(&mut self, backend: &mut B, capdu: &[u8]) -> (r: Result<
        Capdu,
        ScllError,
    >)
        ensures
            exists|event: Event| #[trigger]
                final(backend).events() == old(backend).events().push(event) && wrapped02(
                    old(self)@,
                    final(self)@,
                    event,
                    capdu@,
                    command_view(r),
                ),
    {
        match backend.scp02_wrap_command(&mut self.session, capdu) {
            Ok(v) => Ok(v),
            Err(e) => Err(ScllError::Backend(e)),
        }
    }

    /// Verifies a response and strips its protection.
    pub fn unwrap_response<B: Scp02Backend>(&mut self, backend: &mut B, rapdu: &[u8]) -> (r: Result<
        Rapdu,
        ScllError,
    >)
        ensures
            exists|event: Event| #[trigger]
                final(backend).events() == old(backend).events().push(event) && unwrapped02(
                    old(self)@,
                    final(self)@,
                    event,
                    rapdu@,
                    response_view(r),
                ),
    {
        match backend.scp02_unwrap_response(&mut self.session, rapdu) {
            Ok(v) => Ok(v),
            Err(e) => Err(ScllError::Backend(e)),
        }
    }
}

/// The INITIALIZE UPDATE command.
pub open spec fn initialize_update(kvn: u8, key_id: u8, host_challenge: Seq<u8>) -> Seq<u8> {
    seq![0x80u8, 0x50u8, kvn, key_id, 0x08u8] + host_challenge + seq![0x00u8]
}

/// Builds INITIALIZE UPDATE; it always fits.
pub fn iu_command(kvn: u8, key_id: u8, host_challenge: &[u8; 8]) -> (r: Result<Capdu, ScllError>)
    ensures
        r matches Ok(apdu) && capdu_bytes(apdu) == initialize_update(kvn, key_id, host_challenge@),
{
    let mut apdu: Capdu = capdu_new();
    extend(&mut apdu, &[0x80, INS_INITIALIZE_UPDATE, kvn, key_id, 0x08])?;
    extend(&mut apdu, host_challenge)?;
    extend(&mut apdu, &[0x00])?;
    assert(capdu_bytes(apdu) =~= initialize_update(kvn, key_id, host_challenge@));
    Ok(apdu)
}

/// Builds EXTERNAL AUTHENTICATE before it is protected.
fn ea_plaintext(security_level: u8, host_cryptogram: [u8; 8]) -> (r: Result<Capdu, ScllError>)
    ensures
        r matches Ok(apdu) && capdu_bytes(apdu) == external_authenticate(
            security_level,
            host_cryptogram@,
        ),
{
    let mut apdu: Capdu = capdu_new();
    extend(&mut apdu, &[0x84, INS_EXTERNAL_AUTHENTICATE, security_level, 0x00, 0x08])?;
    extend(&mut apdu, &host_cryptogram)?;
    assert(capdu_bytes(apdu) =~= external_authenticate(security_level, host_cryptogram@));
    Ok(apdu)
}

/// What an answer to INITIALIZE UPDATE says.
pub open spec fn iu_fields(s: Seq<u8>) -> Result<IuFields, ScllError> {
    if s.len() != 28 || s[11] != 0x02 {
        Err(ScllError::ScpProtocolUnsupported)
    } else {
        Ok(
            IuFields {
                kvn: s[10],
                seq_counter: s.subrange(12, 14),
                card_challenge: s.subrange(14, 20),
                card_cryptogram: s.subrange(20, 28),
            },
        )
    }
}

/// The outcome of [`parse_iu_response`].
pub open spec fn iu_view(r: Result<IuResponse, ScllError>) -> Result<IuFields, ScllError> {
    match r {
        Ok(iu) => Ok(iu@),
        Err(e) => Err(e),
    }
}

/// Reads the answer to INITIALIZE UPDATE, without its status word.
pub fn parse_iu_response(bytes: &[u8]) -> (r: Result<IuResponse, ScllError>)
    ensures
        iu_view(r) == iu_fields(bytes@),
{
    if bytes.len() != IU_RESPONSE_LEN {
        return Err(ScllError::ScpProtocolUnsupported);
    }
    if bytes[11] != SCP_ID_SCP02 {
        return Err(ScllError::ScpProtocolUnsupported);
    }
    let iu: IuResponse = IuResponse {
        kvn: bytes[10],
        seq_counter: [bytes[12], bytes[13]],
        card_challenge: [bytes[14], bytes[15], bytes[16], bytes[17], bytes[18], bytes[19]],
        card_cryptogram: [
            bytes[20],
            bytes[21],
            bytes[22],
            bytes[23],
            bytes[24],
            bytes[25],
            bytes[26],
            bytes[27],
        ],
    };
    assert(iu.seq_counter@ =~= bytes@.subrange(12, 14));
    assert(iu.card_challenge@ =~= bytes@.subrange(14, 20));
    assert(iu.card_cryptogram@ =~= bytes@.subrange(20, 28));
    Ok(iu)
}

/// The level bits that a card can give: command MAC and encryption always, a
/// response MAC under two of the option bytes.
pub open spec fn allowed_level(i_param: u8) -> u8 {
    if i_param == 0x15 || i_param == 0x55 {
        0x13
    } else {
        0x03
    }
}

/// The requested level without what the card cannot give.
pub open spec fn capped_level(i_param: u8, requested: u8) -> Result<u8, ScllError> {
    if requested & allowed_level(i_param) == 0 {
        Err(ScllError::NoCommonSecurityLevel)
    } else {
        Ok(requested & allowed_level(i_param))
    }
}

/// Caps a requested level to what the card can give.
pub fn cap_security_level(i_param: u8, requested: u8) -> (r: Result<u8, ScllError>)
    ensures
        r == capped_level(i_param, requested),
{
    let allowed: u8 = if i_param == 0x15 || i_param == 0x55 {
        0x13
    } else {
        0x03
    };
    let effective: u8 = requested & allowed;
    if effective == 0 {
        return Err(ScllError::NoCommonSecurityLevel);
    }
    Ok(effective)
}

/// Capping never adds a bit to the requested level and never leaves one that the
/// card cannot give; in particular SCP02 has no response encryption.
pub proof fn law_capping_only_removes(i_param: u8, requested: u8, bit: u8)
    requires
        capped_level(i_param, requested) is Ok,
    ensures
        capped_level(i_param, requested)->Ok_0 & bit != 0 ==> requested & bit != 0 && allowed_level(
            i_param,
        ) & bit != 0,
        capped_level(i_param, requested)->Ok_0 & 0x20 == 0,
        capped_level(i_param, requested)->Ok_0 != 0,
{
    let a = allowed_level(i_param);
    assert((requested & a) & bit != 0 ==> requested & bit != 0 && a & bit != 0) by (bit_vector);
    assert(a == 0x13 || a == 0x03 ==> (requested & a) & 0x20 == 0) by (bit_vector);
}

/// What is asked of the backend once the card is trusted.
pub open spec fn begin_finish(
    ev: Seq<Event>,
    session: Scp02Session,
    card: Seq<u8>,
    kvn: u8,
    host: Seq<u8>,
    i_param: u8,
    level: u8,
    r: Result<(Scp02Channel, Seq<u8>), ScllError>,
) -> bool {
    &&& ev.len() > 2
    &&& match ev[2] {
        Event::HostCryptogram02 { session: s, host: h, card: c, result } => {
            &&& s == session && h == host && c == card
            &&& match result {
                Err(e) => ev.len() == 3 && r == Err::<(Scp02Channel, Seq<u8>), ScllError>(
                    ScllError::Backend(e),
                ),
                Ok(cryptogram) => {
                    &&& ev.len() == 4
                    &&& match ev[3] {
                        Event::Wrap02 { session: s, after, command, result } => {
                            &&& s == session
                            &&& command == external_authenticate(level, cryptogram)
                            &&& r == (match result {
                                Err(e) => Err::<(Scp02Channel, Seq<u8>), ScllError>(
                                    ScllError::Backend(e),
                                ),
                                Ok(ea) => Ok(
                                    (
                                        Scp02Channel {
                                            session: after,
                                            i_param,
                                            security_level: level,
                                            kvn,
                                        },
                                        ea,
                                    ),
                                ),
                            })
                        },
                        _ => false,
                    }
                },
            }
        },
        _ => false,
    }
}

/// How a channel is opened from the card's answer: the exact calls that are made
/// of the backend, in order, and what their results lead to. The cryptograms are
/// computed over the sequence counter and the card's challenge together.
pub open spec fn begun02(
    ev: Seq<Event>,
    enc: KeyHandle,
    mac: KeyHandle,
    dek: KeyHandle,
    i_param: u8,
    kvn_expected: u8,
    requested: u8,
    host: Seq<u8>,
    answer: Seq<u8>,
    r: Result<(Scp02Channel, Seq<u8>), ScllError>,
) -> bool {
    match iu_fields(answer) {
        Err(e) => ev.len() == 0 && r == Err::<(Scp02Channel, Seq<u8>), ScllError>(e),
        Ok(iu) => if kvn_expected != 0 && iu.kvn != kvn_expected {
            ev.len() == 0 && r == Err::<(Scp02Channel, Seq<u8>), ScllError>(ScllError::KvnMismatch)
        } else {
            let card = iu.seq_counter + iu.card_challenge;
            &&& ev.len() > 0
            &&& match ev[0] {
                Event::Derive02 { enc: ke, mac: km, dek: kd, counter, result } => {
                    &&& ke == enc && km == mac && kd == dek && counter == iu.seq_counter
                    &&& match result {
                        Err(e) => ev.len() == 1 && r == Err::<(Scp02Channel, Seq<u8>), ScllError>(
                            ScllError::Backend(e),
                        ),
                        Ok(session) => ev.len() > 1 && match ev[1] {
                            Event::CardCryptogram02 { session: s, host: h, card: c, result } => {
                                &&& s == session && h == host && c == card
                                &&& match result {
                                    Err(e) => ev.len() == 2 && r == Err::<
                                        (Scp02Channel, Seq<u8>),
                                        ScllError,
                                    >(ScllError::Backend(e)),
                                    Ok(cryptogram) => if cryptogram != iu.card_cryptogram {
                                        ev.len() == 2 && r == Err::<
                                            (Scp02Channel, Seq<u8>),
                                            ScllError,
                                        >(ScllError::CardCryptogramFail)
                                    } else {
                                        match capped_level(i_param, requested) {
                                            Err(e) => ev.len() == 2 && r == Err::<
                                                (Scp02Channel, Seq<u8>),
                                                ScllError,
                                            >(e),
                                            Ok(level) => begin_finish(
                                                ev,
                                                session,
                                                card,
                                                iu.kvn,
                                                host,
                                                i_param,
                                                level,
                                                r,
                                            ),
                                        }
                                    },
                                }
                            },
                            _ => false,
                        },
                    }
                },
                _ => false,
            }
        },
    }
}

/// No channel comes of an answer unless the backend computed exactly the cryptogram that
/// the card sent.
pub proof fn law_only_a_checked_card_is_authenticated_to(
    ev: Seq<Event>,
    enc: KeyHandle,
    mac: KeyHandle,
    dek: KeyHandle,
    i_param: u8,
    kvn_expected: u8,
    requested: u8,
    host: Seq<u8>,
    answer: Seq<u8>,
    r: Result<(Scp02Channel, Seq<u8>), ScllError>,
)
    requires
        begun02(ev, enc, mac, dek, i_param, kvn_expected, requested, host, answer, r),
        r is Ok,
    ensures
        ({
            let iu = iu_fields(answer)->Ok_0;
            &&& iu_fields(answer) is Ok
            &&& kvn_expected == 0 || iu.kvn == kvn_expected
            &&& ev[0] matches Event::Derive02 { enc: e, mac: m, dek: d, counter, result }
            &&& e == enc && m == mac && d == dek && counter == iu.seq_counter
            &&& ev[1] matches Event::CardCryptogram02 { session, host: h, card, result: seen }
            &&& result == Ok::<Scp02Session, BackendError>(session)
            &&& h == host && card == iu.seq_counter + iu.card_challenge
            &&& seen == Ok::<Seq<u8>, BackendError>(iu.card_cryptogram)
        }),
{
}

/// The content of a begin result.
pub open spec fn begin_view(r: Result<(Scp02State, Capdu), ScllError>) -> Result<
    (Scp02Channel, Seq<u8>),
    ScllError,
> {
    match r {
        Ok((state, ea)) => Ok((state@, capdu_bytes(ea))),
        Err(e) => Err(e),
    }
}

/// Opens a channel from the card's answer to INITIALIZE UPDATE and returns the
/// protected EXTERNAL AUTHENTICATE. The card is not authenticated to unless its
/// cryptogram is right.
pub fn begin<B: Scp02Backend>(
    backend: &mut B,
    base_enc: &KeyHandle,
    base_mac: &KeyHandle,
    base_dek: &KeyHandle,
    i_param: u8,
    kvn_expected: u8,
    requested_level: u8,
    host_challenge: &[u8; 8],
    iu_response: &[u8],
) -> (r: Result<(Scp02State, Capdu), ScllError>)
    ensures
        grew(old(backend).events(), final(backend).events()),
        begun02(
            gained(old(backend).events(), final(backend).events()),
            *base_enc,
            *base_mac,
            *base_dek,
            i_param,
            kvn_expected,
            requested_level,
            host_challenge@,
            iu_response@,
            begin_view(r),
        ),
{
    let iu: IuResponse = parse_iu_response(iu_response)?;
    if kvn_expected != 0 && iu.kvn != kvn_expected {
        return Err(ScllError::KvnMismatch);
    }
    let mut session: Scp02Session = match backend.scp02_derive_session(
        base_enc,
        base_mac,
        base_dek,
        iu.seq_counter,
    ) {
        Ok(s) => s,
        Err(e) => return Err(ScllError::Backend(e)),
    };
    let card_ch8: [u8; 8] = [
        iu.seq_counter[0],
        iu.seq_counter[1],
        iu.card_challenge[0],
        iu.card_challenge[1],
        iu.card_challenge[2],
        iu.card_challenge[3],
        iu.card_challenge[4],
        iu.card_challenge[5],
    ];
    assert(card_ch8@ =~= iu.seq_counter@ + iu.card_challenge@);
    let expected_card: [u8; 8] = match backend.scp02_card_cryptogram(
        &session,
        host_challenge,
        &card_ch8,
    ) {
        Ok(c) => c,
        Err(e) => return Err(ScllError::Backend(e)),
    };
    if !backend.ct_eq(&expected_card, &iu.card_cryptogram) {
        return Err(ScllError::CardCryptogramFail);
    }
    let security_level: u8 = cap_security_level(i_param, requested_level)?;
    let host_cryptogram: [u8; 8] = match backend.scp02_host_cryptogram(
        &session,
        host_challenge,
        &card_ch8,
    ) {
        Ok(c) => c,
        Err(e) => return Err(ScllError::Backend(e)),
    };
    let ea_plain: Capdu = ea_plaintext(security_level, host_cryptogram)?;
    match backend.scp02_wrap_command(&mut session, capdu_slice(&ea_plain)) {
        Ok(ea) => Ok((Scp02State { session, i_param, security_level, kvn: iu.kvn }, ea)),
        Err(e) => Err(ScllError::Backend(e)),
    }
}

} // verus!
