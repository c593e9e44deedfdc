//! The link to a card.
use vstd::prelude::*;
use vstd::string::StringSliceAdditionalSpecFns;

use crate::buffers::{rapdu_bytes, Rapdu};
use crate::limits::OTHER_DETAIL_MAX;
use crate::util::text::Logged;

verus! {

/// Why an exchange failed.
#[derive(Debug, Clone)]
#[non_exhaustive]
pub enum TransportError {
    CardRemoved,
    ReaderGone,
    Timeout,
    ProtocolError,
    Other(String),
}

/// A failure with a short text; a text that is too long is left out.
pub fn other_msg(msg: &str) -> (r: TransportError)
    ensures
        r matches TransportError::Other(detail) && detail@ == (if msg.spec_bytes().len()
            <= OTHER_DETAIL_MAX {
            msg@
        } else {
            Seq::empty()
        }),
{
    if msg.as_bytes().len() <= OTHER_DETAIL_MAX {
        TransportError::Other(msg.to_owned())
    } else {
        TransportError::Other(String::new())
    }
}

/// What a transport says of itself.
#[derive(Debug, Clone, Copy, PartialEq, Eq, Structural)]
pub struct TransportCaps {
    pub handles_t0_get_response: bool,
    pub protocol: TransportProtocol,
    pub contactless: bool,
}

/// Negotiated card protocol.
#[derive(Debug, Clone, Copy, PartialEq, Eq, Structural)]
pub enum TransportProtocol {
    T0,
    T1,
    TCl,
}

/// Answer-to-reset of a contact card or answer-to-select of a contactless one.
#[derive(Debug, Clone)]
pub struct AtrAts {
    pub bytes: Vec<u8>,
    pub protocol: TransportProtocol,
}

/// One event on the link.
pub enum Exchange {
    /// A command and what came back.
    Apdu { command: Seq<u8>, reply: Result<Seq<u8>, TransportError> },
    /// A reset and what came back.
    Reset { answer: Result<AtrAts, TransportError> },
}

/// The bytes of a reply.
pub open spec fn reply_view(r: Result<Rapdu, TransportError>) -> Result<Seq<u8>, TransportError> {
    match r {
        Ok(bytes) => Ok(rapdu_bytes(bytes)),
        Err(e) => Err(e),
    }
}

/// A link to one card, implemented by the user of the library. A command goes
/// in and one response comes out; nothing is promised of the response.
pub trait Transport {
    /// Everything that has happened on this link, oldest first.
    closed spec fn history(&self) -> Seq<Exchange> {
        arbitrary()
    }

    /// What the link says of itself.
    closed spec fn caps(&self) -> TransportCaps {
        arbitrary()
    }

    /// Sends one short command APDU and returns one response APDU.
    fn transmit(&mut self, capdu: &[u8]) -> (r: Result<Rapdu, TransportError>)
        ensures
            final(self).history() == old(self).history().push(
                Exchange::Apdu { command: capdu@, reply: reply_view(r) },
            ),
    ;

    /// What the link can do.
    fn capabilities(&self) -> (r: TransportCaps)
        ensures
            r == self.caps(),
    ;

    /// Resets the card.
    fn reset(&mut self) -> (r: Result<AtrAts, TransportError>)
        ensures
            final(self).history() == old(self).history().push(Exchange::Reset { answer: r }),
    ;

    /// The negotiated protocol.
    fn protocol(&self) -> TransportProtocol;

    /// Whether a card still answers; sends nothing.
    fn is_connected(&self) -> bool;
}

impl Logged for TransportProtocol {
    open spec fn text(&self) -> Seq<char> {
        match self {
            TransportProtocol::T0 => "T0"@,
            TransportProtocol::T1 => "T1"@,
            TransportProtocol::TCl => "TCl"@,
        }
    }

    fn to_text(&self) -> (r: String) {
        match self {
            TransportProtocol::T0 => "T0".to_owned(),
            TransportProtocol::T1 => "T1".to_owned(),
            TransportProtocol::TCl => "TCl".to_owned(),
        }
    }
}

} // verus!
