//! Numbers in their order, in place of random ones.
use vstd::prelude::*;

use crate::rustcrypto::RandomSource;

verus! {

/// A source that counts, so that a test knows what is drawn.
pub struct CountingSource {
    last: u8,
    log: Ghost<Seq<Seq<u8>>>,
}

/// The `n` numbers that follow `last`; 0 follows 255.
pub open spec fn counted(last: u8, n: nat) -> Seq<u8> {
    Seq::new(n, |i: int| ((last + 1 + i) % 256) as u8)
}

impl CountingSource {
    /// The last number that was given.
    pub closed spec fn position(self) -> u8 {
        self.last
    }

    /// What was given.
    pub closed spec fn log_of(self) -> Seq<Seq<u8>> {
        self.log@
    }

    /// A source whose first number follows `last`.
    pub fn new(last: u8) -> (r: CountingSource)
        ensures
            r.position() == last,
            r.log_of() == Seq::<Seq<u8>>::empty(),
    {
        CountingSource { last, log: Ghost(Seq::empty()) }
    }
}

impl RandomSource for CountingSource {
    open spec fn drawn(&self) -> Seq<Seq<u8>> {
        self.log_of()
    }

    fn fill_bytes(&mut self, out: &mut [u8])
        ensures
            final(out)@ == counted(old(self).position(), old(out)@.len()),
            final(self).position() == (old(self).position() + old(out)@.len()) % 256,
    {
        let ghost first = self.last;
        let n: usize = out.len();
        let mut i: usize = 0;
        while i < n
            invariant
                i <= n,
                n == out@.len(),
                self.log == old(self).log,
                self.last == (first + i) % 256,
                forall|k: int| 0 <= k < i ==> #[trigger] out@[k] == (first + 1 + k) % 256,
            decreases n - i,
        {
            self.last = if self.last == 255 {
                0
            } else {
                self.last + 1
            };
            out[i] = self.last;
            i = i + 1;
        }
        assert(out@ =~= counted(first, n as nat));
        self.log = Ghost(self.log@.push(out@));
    }
}

} // verus!
