//! Numbers and texts in bytes.
use vstd::prelude::*;

verus! {

/// The number that bytes stand for, the most significant one first.
pub open spec fn number(s: Seq<u8>) -> nat
    decreases s.len(),
{
    if s.len() == 0 {
        0
    } else {
        number(s.drop_last()) * 256 + s.last() as nat
    }
}

/// The number that bytes stand for, the least significant one first.
pub open spec fn number_le(s: Seq<u8>) -> nat {
    number(s.reverse())
}

/// Bytes that spell a text.
pub open spec fn spells(bytes: Seq<u8>, text: Seq<char>) -> bool {
    &&& bytes.len() == text.len()
    &&& forall|i: int| 0 <= i < bytes.len() ==> (#[trigger] bytes[i]) as int == text[i] as int
}

/// Only zeros.
pub open spec fn all_zero(s: Seq<u8>) -> bool {
    forall|i: int| 0 <= i < s.len() ==> #[trigger] s[i] == 0
}

/// One more byte behind a number.
pub proof fn lemma_number_push(s: Seq<u8>, b: u8)
    ensures
        number(s.push(b)) == number(s) * 256 + b,
{
    assert(s.push(b).drop_last() =~= s);
}

/// A number of one byte.
pub proof fn lemma_number_1(s: Seq<u8>)
    requires
        s.len() == 1,
    ensures
        number(s) == s[0],
{
    assert(s.drop_last() =~= Seq::empty());
    assert(number(s.drop_last()) == 0);
}

/// A number of two bytes.
pub proof fn lemma_number_2(s: Seq<u8>)
    requires
        s.len() == 2,
    ensures
        number(s) == s[0] * 256 + s[1],
{
    lemma_number_1(s.drop_last());
}

/// A number of three bytes.
pub proof fn lemma_number_3(s: Seq<u8>)
    requires
        s.len() == 3,
    ensures
        number(s) == s[0] * 0x1_0000 + s[1] * 0x100 + s[2],
{
    lemma_number_2(s.drop_last());
}

/// A number of four bytes.
pub proof fn lemma_number_4(s: Seq<u8>)
    requires
        s.len() == 4,
    ensures
        number(s) == s[0] * 0x100_0000 + s[1] * 0x1_0000 + s[2] * 0x100 + s[3],
{
    lemma_number_3(s.drop_last());
}

/// Zeros in front of a number do not change it.
pub proof fn lemma_number_zeros(zeros: Seq<u8>, s: Seq<u8>)
    requires
        all_zero(zeros),
    ensures
        number(zeros + s) == number(s),
    decreases zeros.len() + s.len(),
{
    let both = zeros + s;
    if s.len() > 0 {
        assert(both.drop_last() =~= zeros + s.drop_last());
        lemma_number_zeros(zeros, s.drop_last());
    } else if zeros.len() > 0 {
        assert(both.drop_last() =~= zeros.drop_last() + s);
        assert(all_zero(zeros.drop_last())) by {
            assert forall|i: int| 0 <= i < zeros.drop_last().len() implies #[trigger]
                zeros.drop_last()[i] == 0 by {
                assert(zeros[i] == 0);
            }
        }
        lemma_number_zeros(zeros.drop_last(), s);
        assert(zeros[zeros.len() - 1] == 0);
    }
}

/// Bytes of one length that stand for the same number are the same.
pub proof fn lemma_number_injective(a: Seq<u8>, b: Seq<u8>)
    requires
        a.len() == b.len(),
        number(a) == number(b),
    ensures
        a == b,
    decreases a.len(),
{
    if a.len() > 0 {
        assert(number(a.drop_last()) == number(b.drop_last()) && a.last() == b.last()) by {
            let x = number(a.drop_last());
            let y = number(b.drop_last());
            assert(x * 256 + a.last() as nat == y * 256 + b.last() as nat);
        }
        lemma_number_injective(a.drop_last(), b.drop_last());
        assert(a =~= a.drop_last().push(a.last()));
        assert(b =~= b.drop_last().push(b.last()));
    } else {
        assert(a =~= b);
    }
}

} // verus!
