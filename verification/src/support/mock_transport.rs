//! A transport that plays a script.
use vstd::prelude::*;
use vstd::slice::slice_to_vec;

use crate::buffers::{rapdu_bytes, rapdu_from_slice, rapdu_slice, Rapdu};
use crate::bytes::same_bytes;
use crate::limits::RAPDU_MAX;
use crate::transport::{
    reply_view, AtrAts, Exchange, Transport, TransportCaps, TransportError, TransportProtocol,
};

verus! {

/// One exchange of a script.
pub struct Scripted {
    pub command: Seq<u8>,
    pub reply: Seq<u8>,
}

struct Line {
    expected: Vec<u8>,
    reply: Rapdu,
}

/// A transport that expects commands in a given order and answers each with a
/// fixed reply. Any other command, and one after the end of the script, is answered
/// with [`TransportError::ProtocolError`] and leaves the script where it was.
pub struct MockTransport {
    lines: Vec<Line>,
    next: usize,
    caps: TransportCaps,
    protocol: TransportProtocol,
    atr: AtrAts,
    log: Ghost<Seq<Exchange>>,
}

/// A script as it is written down.
pub open spec fn scripted(exchanges: Seq<(&[u8], &[u8])>) -> Seq<Scripted> {
    exchanges.map_values(|e: (&[u8], &[u8])| Scripted { command: e.0@, reply: e.1@ })
}

/// What a transport with T=1 over contacts says of itself.
pub open spec fn contact_t1() -> TransportCaps {
    TransportCaps {
        handles_t0_get_response: false,
        protocol: TransportProtocol::T1,
        contactless: false,
    }
}

impl MockTransport {
    #[verifier::type_invariant]
    spec fn inside(self) -> bool {
        self.next <= self.lines@.len()
    }

    /// What is left of the script.
    pub closed spec fn script(self) -> Seq<Scripted> {
        self.lines@.skip(self.next as int).map_values(
            |l: Line| Scripted { command: l.expected@, reply: rapdu_bytes(l.reply) },
        )
    }

    /// What a reset gives.
    pub closed spec fn reset_answer(self) -> AtrAts {
        self.atr
    }

    /// The protocol that is reported.
    pub closed spec fn reported_protocol(self) -> TransportProtocol {
        self.protocol
    }

    /// What has happened.
    pub closed spec fn log_of(self) -> Seq<Exchange> {
        self.log@
    }

    /// What is reported of the link.
    pub closed spec fn caps_of(self) -> TransportCaps {
        self.caps
    }

    /// A transport that plays `exchanges`, with T=1 over contacts and an empty
    /// answer to reset.
    pub fn new(exchanges: &[(&[u8], &[u8])]) -> (r: MockTransport)
        requires
            forall|i: int|
                0 <= i < exchanges@.len() ==> (#[trigger] exchanges@[i]).1@.len() <= RAPDU_MAX,
        ensures
            r.script() == scripted(exchanges@),
            r.caps_of() == contact_t1(),
            r.reported_protocol() == TransportProtocol::T1,
            r.reset_answer().bytes@.len() == 0,
            r.reset_answer().protocol == TransportProtocol::T1,
            r.log_of() == Seq::<Exchange>::empty(),
    {
        let mut lines: Vec<Line> = Vec::new();
        let mut i: usize = 0;
        while i < exchanges.len()
            invariant
                i == lines@.len(),
                i <= exchanges@.len(),
                forall|k: int|
                    0 <= k < exchanges@.len() ==> (#[trigger] exchanges@[k]).1@.len() <= RAPDU_MAX,
                forall|k: int|
                    0 <= k < i ==> (#[trigger] lines@[k]).expected@ == exchanges@[k].0@
                        && rapdu_bytes(lines@[k].reply) == exchanges@[k].1@,
            decreases exchanges@.len() - i,
        {
            let (command, reply) = exchanges[i];
            match rapdu_from_slice(reply) {
                Ok(reply) => lines.push(Line { expected: slice_to_vec(command), reply }),
                Err(_) => vstd::pervasive::unreached(),
            }
            i = i + 1;
        }
        let r: MockTransport = MockTransport {
            lines,
            next: 0,
            caps: TransportCaps {
                handles_t0_get_response: false,
                protocol: TransportProtocol::T1,
                contactless: false,
            },
            protocol: TransportProtocol::T1,
            atr: AtrAts { bytes: Vec::new(), protocol: TransportProtocol::T1 },
            log: Ghost(Seq::empty()),
        };
        assert(r.script() =~= scripted(exchanges@));
        r
    }

    /// Reports other capabilities.
    pub fn with_caps(self, caps: TransportCaps) -> (r: MockTransport)
        ensures
            r.caps_of() == caps,
            r.script() == self.script(),
            r.reported_protocol() == self.reported_protocol(),
            r.reset_answer() == self.reset_answer(),
            r.log_of() == self.log_of(),
    {
        proof {
            use_type_invariant(&self);
        }
        MockTransport { caps, ..self }
    }

    /// Reports another protocol.
    pub fn with_protocol(self, protocol: TransportProtocol) -> (r: MockTransport)
        ensures
            r.reported_protocol() == protocol,
            r.script() == self.script(),
            r.caps_of() == self.caps_of(),
            r.reset_answer() == self.reset_answer(),
            r.log_of() == self.log_of(),
    {
        proof {
            use_type_invariant(&self);
        }
        MockTransport { protocol, ..self }
    }

    /// Answers a reset with something else.
    pub fn with_atr(self, atr: AtrAts) -> (r: MockTransport)
        ensures
            r.reset_answer() == atr,
            r.script() == self.script(),
            r.caps_of() == self.caps_of(),
            r.reported_protocol() == self.reported_protocol(),
            r.log_of() == self.log_of(),
    {
        proof {
            use_type_invariant(&self);
        }
        MockTransport { atr, ..self }
    }

    /// How many exchanges are left.
    pub fn remaining(&self) -> (r: usize)
        ensures
            r == self.script().len(),
    {
        proof {
            use_type_invariant(self);
        }
        self.lines.len() - self.next
    }

    /// Whether the script is at its end.
    pub fn is_drained(&self) -> (r: bool)
        ensures
            r <==> self.script().len() == 0,
    {
        self.remaining() == 0
    }

    /// Insists that the script is at its end. A caller that nothing was proved of, and
    /// that comes too early, panics here.
    pub fn assert_drained(&self)
        requires
            self.script().len() == 0,
    {
        if !self.is_drained() {
            vstd::pervasive::unreached()
        }
    }
}

impl Transport for MockTransport {
    open spec fn history(&self) -> Seq<Exchange> {
        self.log_of()
    }

    open spec fn caps(&self) -> TransportCaps {
        self.caps_of()
    }

    fn transmit(&mut self, capdu: &[u8]) -> (r: Result<Rapdu, TransportError>)
        ensures
            final(self).caps_of() == old(self).caps_of(),
            final(self).reset_answer() == old(self).reset_answer(),
            final(self).reported_protocol() == old(self).reported_protocol(),
            if old(self).script().len() > 0 && old(self).script()[0].command == capdu@ {
                &&& reply_view(r) == Ok::<Seq<u8>, TransportError>(old(self).script()[0].reply)
                &&& final(self).script() == old(self).script().skip(1)
            } else {
                &&& reply_view(r) == Err::<Seq<u8>, TransportError>(TransportError::ProtocolError)
                &&& final(self).script() == old(self).script()
            },
    {
        proof {
            use_type_invariant(&*self);
        }
        let ghost before = self.script();
        let mut r: Result<Rapdu, TransportError> = Err(TransportError::ProtocolError);
        if self.next < self.lines.len() {
            let line: &Line = &self.lines[self.next];
            assert(before[0].command == line.expected@);
            if same_bytes(line.expected.as_slice(), capdu) {
                match rapdu_from_slice(rapdu_slice(&line.reply)) {
                    Ok(reply) => {
                        r = Ok(reply);
                        self.next = self.next + 1;
                        assert(self.script() =~= before.skip(1));
                    },
                    Err(_) => vstd::pervasive::unreached(),
                }
            }
        }
        self.log = Ghost(
            self.log@.push(Exchange::Apdu { command: capdu@, reply: reply_view(r) }),
        );
        r
    }

    fn capabilities(&self) -> (r: TransportCaps) {
        self.caps
    }

    fn reset(&mut self) -> (r: Result<AtrAts, TransportError>)
        ensures
            r matches Ok(atr) && atr.bytes@ == old(self).reset_answer().bytes@ && atr.protocol
                == old(self).reset_answer().protocol,
            final(self).script() == old(self).script(),
            final(self).caps_of() == old(self).caps_of(),
            final(self).reset_answer() == old(self).reset_answer(),
            final(self).reported_protocol() == old(self).reported_protocol(),
    {
        proof {
            use_type_invariant(&*self);
        }
        let bytes: Vec<u8> = slice_to_vec(self.atr.bytes.as_slice());
        let r: Result<AtrAts, TransportError> = Ok(
            AtrAts { bytes, protocol: self.atr.protocol },
        );
        self.log = Ghost(self.log@.push(Exchange::Reset { answer: r }));
        r
    }

    fn protocol(&self) -> (r: TransportProtocol)
        ensures
            r == self.reported_protocol(),
    {
        self.protocol
    }

    fn is_connected(&self) -> (r: bool)
        ensures
            r,
    {
        true
    }
}

} // verus!
