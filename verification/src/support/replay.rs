//! Scripts that own their bytes.
use vstd::prelude::*;
use vstd::slice::slice_to_vec;

use crate::limits::RAPDU_MAX;
use crate::support::mock_transport::{contact_t1, scripted, MockTransport, Scripted};
use crate::transport::{Exchange, TransportProtocol};

verus! {

/// A list of commands and the replies to them.
#[derive(Debug, Clone)]
pub struct Trace {
    steps: Vec<(Vec<u8>, Vec<u8>)>,
}

impl View for Trace {
    type V = Seq<Scripted>;

    closed spec fn view(&self) -> Seq<Scripted> {
        self.steps@.map_values(|e: (Vec<u8>, Vec<u8>)| Scripted { command: e.0@, reply: e.1@ })
    }
}

impl Trace {
    /// An empty script.
    pub fn new() -> (r: Trace)
        ensures
            r@ == Seq::<Scripted>::empty(),
    {
        let r: Trace = Trace { steps: Vec::new() };
        assert(r@ =~= Seq::<Scripted>::empty());
        r
    }

    /// Appends one exchange.
    pub fn step(self, capdu: &[u8], rapdu: &[u8]) -> (r: Trace)
        ensures
            r@ == self@.push(Scripted { command: capdu@, reply: rapdu@ }),
    {
        let ghost before = self@;
        let mut steps: Vec<(Vec<u8>, Vec<u8>)> = self.steps;
        steps.push((slice_to_vec(capdu), slice_to_vec(rapdu)));
        let r: Trace = Trace { steps };
        assert(r@ =~= before.push(Scripted { command: capdu@, reply: rapdu@ }));
        r
    }

    /// The number of exchanges.
    pub fn len(&self) -> (r: usize)
        ensures
            r == self@.len(),
    {
        self.steps.len()
    }

    /// Whether there is no exchange.
    pub fn is_empty(&self) -> (r: bool)
        ensures
            r <==> self@.len() == 0,
    {
        self.steps.len() == 0
    }

    /// A transport that plays this script from its beginning.
    pub fn mock(&self) -> (r: MockTransport)
        requires
            forall|i: int| 0 <= i < self@.len() ==> (#[trigger] self@[i]).reply.len() <= RAPDU_MAX,
        ensures
            r.script() == self@,
            r.caps_of() == contact_t1(),
            r.reported_protocol() == TransportProtocol::T1,
            r.reset_answer().bytes@.len() == 0,
            r.reset_answer().protocol == TransportProtocol::T1,
            r.log_of() == Seq::<Exchange>::empty(),
    {
        let mut refs: Vec<(&[u8], &[u8])> = Vec::new();
        let mut i: usize = 0;
        while i < self.steps.len()
            invariant
                i == refs@.len(),
                i <= self.steps@.len(),
                forall|k: int|
                    0 <= k < i ==> (#[trigger] refs@[k]).0@ == self@[k].command && refs@[k].1@
                        == self@[k].reply,
            decreases self.steps@.len() - i,
        {
            let step: &(Vec<u8>, Vec<u8>) = &self.steps[i];
            refs.push((step.0.as_slice(), step.1.as_slice()));
            i = i + 1;
        }
        proof {
            assert(scripted(refs@) =~= self@);
        }
        MockTransport::new(refs.as_slice())
    }
}

impl Default for Trace {
    fn default() -> (r: Trace)
        ensures
            r@ == Seq::<Scripted>::empty(),
    {
        Trace::new()
    }
}

} // verus!
