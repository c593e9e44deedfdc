//! Key bytes that are wiped when they are no longer needed.
use vstd::prelude::*;

use crate::limits::KEY_BYTES_MAX;

verus! {

/// At most [`KEY_BYTES_MAX`] bytes of a key.
pub struct Secret {
    bytes: [u8; KEY_BYTES_MAX],
    len: usize,
}

impl View for Secret {
    type V = Seq<u8>;

    closed spec fn view(&self) -> Seq<u8> {
        self.bytes@.take(self.len as int)
    }
}

/// `zeroize::Zeroize::zeroize` of a slice: every byte becomes zero, and it does not
/// unwind.
#[verifier::external_body]
pub(crate) fn wipe(bytes: &mut [u8])
    ensures
        final(bytes)@ == Seq::new(old(bytes)@.len(), |i: int| 0u8),
    opens_invariants none
    no_unwind
{
    zeroize::Zeroize::zeroize(bytes)
}

impl Secret {
    #[verifier::type_invariant]
    spec fn inv(self) -> bool {
        self.len <= KEY_BYTES_MAX
    }

    /// No byte of the buffer is left.
    pub closed spec fn wiped(self) -> bool {
        forall|i: int| 0 <= i < KEY_BYTES_MAX ==> self.bytes@[i] == 0
    }

    /// A copy of `src`; nothing where it is longer than any key.
    pub fn from_slice(src: &[u8]) -> (r: Option<Secret>)
        ensures
            match r {
                Some(secret) => src@.len() <= KEY_BYTES_MAX && secret@ == src@,
                None => src@.len() > KEY_BYTES_MAX,
            },
    {
        if src.len() > KEY_BYTES_MAX {
            return None;
        }
        let mut bytes: [u8; KEY_BYTES_MAX] = [0u8; KEY_BYTES_MAX];
        let mut i: usize = 0;
        while i < src.len()
            invariant
                i <= src.len() <= KEY_BYTES_MAX,
                bytes@.take(i as int) == src@.take(i as int),
            decreases src.len() - i,
        {
            bytes[i] = src[i];
            i = i + 1;
            assert(bytes@.take(i as int) =~= src@.take(i as int));
        }
        assert(src@.take(i as int) =~= src@);
        Some(Secret { bytes, len: src.len() })
    }

    /// The bytes.
    pub fn as_slice(&self) -> (r: &[u8])
        ensures
            r@ == self@,
            r@.len() <= KEY_BYTES_MAX,
    {
        proof {
            use_type_invariant(self);
        }
        let bytes: &[u8] = &self.bytes;
        &bytes[0..self.len]
    }

    /// Wipes the bytes; nothing is left of them.
    pub fn wipe(&mut self)
        ensures
            final(self)@.len() == 0,
            final(self).wiped(),
    {
        proof {
            use_type_invariant(&*self);
        }
        wipe(&mut self.bytes);
        self.len = 0;
        assert(self@ =~= Seq::empty());
    }
}

impl Drop for Secret {
    /// Wipes the bytes when they go out of use.
    fn drop(&mut self)
        opens_invariants none
        no_unwind
    {
        proof {
            use_type_invariant(&*self);
        }
        wipe(&mut self.bytes);
        self.len = 0;
    }
}

} // verus!
