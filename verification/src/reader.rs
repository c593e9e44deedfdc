//! Choosing a card reader by name.
//!
//! A selector is a part of a reader's name, and behind an `@` the number of the
//! reader among those whose name holds that part.
use vstd::prelude::*;
use vstd::string::StringSliceAdditionalSpecFns;

use crate::bytes::same_bytes;

verus! {

/// Position of the last `@`.
pub open spec fn last_at(text: Seq<u8>) -> Option<int>
    decreases text.len(),
{
    if text.len() == 0 {
        None
    } else if text.last() == 0x40 {
        Some(text.len() - 1)
    } else {
        last_at(text.drop_last())
    }
}

/// All bytes are decimal digits.
pub open spec fn all_decimal(text: Seq<u8>) -> bool {
    forall|i: int| 0 <= i < text.len() ==> 0x30 <= #[trigger] text[i] <= 0x39
}

/// What decimal digits stand for.
pub open spec fn decimal(text: Seq<u8>) -> nat
    decreases text.len(),
{
    if text.len() == 0 {
        0
    } else {
        decimal(text.drop_last()) * 10 + (text.last() - 0x30) as nat
    }
}

/// The part of the name, and the number. Only a number that fits behind the last
/// `@` counts; otherwise the whole text is a name.
pub open spec fn selected(text: Seq<u8>) -> (Seq<u8>, Option<usize>) {
    match last_at(text) {
        Some(at) => {
            let suffix = text.skip(at + 1);
            if suffix.len() > 0 && all_decimal(suffix) && decimal(suffix) <= usize::MAX {
                (text.take(at), Some(decimal(suffix) as usize))
            } else {
                (text, None)
            }
        },
        None => (text, None),
    }
}

/// Where the last `@` stands, no byte behind it is one.
proof fn lemma_last_at(text: Seq<u8>, at: int)
    requires
        0 <= at < text.len(),
        text[at] == 0x40,
        forall|i: int| at < i < text.len() ==> text[i] != 0x40,
    ensures
        last_at(text) == Some(at),
    decreases text.len(),
{
    if at < text.len() - 1 {
        lemma_last_at(text.drop_last(), at);
    }
}

/// Without an `@` there is no last one.
proof fn lemma_no_at(text: Seq<u8>)
    requires
        forall|i: int| 0 <= i < text.len() ==> text[i] != 0x40,
    ensures
        last_at(text) is None,
    decreases text.len(),
{
    if text.len() > 0 {
        lemma_no_at(text.drop_last());
    }
}

/// More digits give no smaller number.
proof fn lemma_decimal_grows(text: Seq<u8>, k: int)
    requires
        0 <= k <= text.len(),
        all_decimal(text),
    ensures
        decimal(text.take(k)) <= decimal(text),
    decreases text.len() - k,
{
    if k < text.len() {
        lemma_decimal_grows(text, k + 1);
        assert(text.take(k + 1).drop_last() =~= text.take(k));
    } else {
        assert(text.take(k) =~= text);
    }
}

/// The number that a text of decimal digits stands for, where it fits.
fn parse_decimal(text: &[u8]) -> (r: Option<usize>)
    ensures
        match r {
            Some(n) => text@.len() > 0 && all_decimal(text@) && n == decimal(text@),
            None => text@.len() == 0 || !all_decimal(text@) || decimal(text@) > usize::MAX,
        },
{
    if text.len() == 0 {
        return None;
    }
    let mut k: usize = 0;
    while k < text.len()
        invariant
            k <= text@.len(),
            forall|i: int| 0 <= i < k ==> 0x30 <= #[trigger] text@[i] <= 0x39,
        decreases text@.len() - k,
    {
        if text[k] < 0x30 || text[k] > 0x39 {
            return None;
        }
        k = k + 1;
    }
    let mut n: usize = 0;
    let mut i: usize = 0;
    assert(text@.take(0) =~= Seq::empty());
    while i < text.len()
        invariant
            i <= text@.len(),
            all_decimal(text@),
            n == decimal(text@.take(i as int)),
        decreases text@.len() - i,
    {
        let d: usize = (text[i] - 0x30) as usize;
        proof {
            assert(text@.take(i + 1).drop_last() =~= text@.take(i as int));
            lemma_decimal_grows(text@, i + 1);
        }
        match n.checked_mul(10) {
            None => return None,
            Some(m) => match m.checked_add(d) {
                None => return None,
                Some(x) => n = x,
            },
        }
        i = i + 1;
    }
    assert(text@.take(i as int) =~= text@);
    Some(n)
}

/// Splits a selector into the part of the name and the number.
pub fn parse_selector(spec_text: &str) -> (r: (&str, Option<usize>))
    ensures
        (r.0.spec_bytes(), r.1) == selected(spec_text.spec_bytes()),
{
    let text: &[u8] = spec_text.as_bytes();
    let mut at: usize = text.len();
    while at > 0
        invariant
            at <= text@.len(),
            text@ == spec_text.spec_bytes(),
            forall|i: int| at <= i < text@.len() ==> text@[i] != 0x40,
        decreases at,
    {
        if text[at - 1] == 0x40 {
            let here: usize = at - 1;
            proof {
                lemma_last_at(text@, here as int);
            }
            let suffix: &[u8] = &text[at..text.len()];
            assert(suffix@ =~= text@.skip(here + 1));
            return match parse_decimal(suffix) {
                Some(n) => {
                    proof {
                        lemma_at_is_boundary(spec_text, here as int);
                    }
                    let (name, _rest) = spec_text.split_at(here);
                    assert(name.spec_bytes() =~= text@.take(here as int));
                    (name, Some(n))
                },
                None => (spec_text, None),
            };
        }
        at = at - 1;
    }
    proof {
        lemma_no_at(text@);
    }
    (spec_text, None)
}

/// A text can be cut in front of an `@`.
proof fn lemma_at_is_boundary(s: &str, at: int)
    requires
        0 <= at < s.spec_bytes().len(),
        s.spec_bytes()[at] == 0x40,
    ensures
        vstd::utf8::is_char_boundary(s.spec_bytes(), at),
{
    vstd::utf8::encode_utf8_valid_utf8(s@);
    vstd::utf8::is_char_boundary_iff_is_leading_byte(s.spec_bytes(), at);
}

/// `part` stands in `name` at position `k`.
pub open spec fn stands_at(name: Seq<u8>, part: Seq<u8>, k: int) -> bool {
    0 <= k && k + part.len() <= name.len() && name.subrange(k, k + part.len()) == part
}

/// `name` holds `part`.
pub open spec fn holds(name: Seq<u8>, part: Seq<u8>) -> bool {
    exists|k: int| #[trigger] stands_at(name, part, k)
}

fn has_part(name: &[u8], part: &[u8]) -> (r: bool)
    ensures
        r == holds(name@, part@),
{
    let mut k: usize = 0;
    while k <= name.len() && part.len() <= name.len() - k
        invariant
            k <= name.len() + 1,
            forall|j: int| 0 <= j < k ==> !#[trigger] stands_at(name@, part@, j),
        ensures
            forall|j: int| 0 <= j ==> !#[trigger] stands_at(name@, part@, j),
        decreases name.len() + 1 - k,
    {
        if same_bytes(&name[k..k + part.len()], part) {
            assert(stands_at(name@, part@, k as int));
            return true;
        }
        if k == name.len() {
            break;
        }
        k = k + 1;
    }
    false
}

/// How many of the first `k` names hold `part`.
pub open spec fn matches_to(names: Seq<Vec<u8>>, part: Seq<u8>, k: int) -> nat
    decreases k,
{
    if k <= 0 {
        0
    } else if holds(names[k - 1]@, part) {
        matches_to(names, part, k - 1) + 1
    } else {
        matches_to(names, part, k - 1)
    }
}

/// The index of the reader with number `nth` among those whose name holds `part`.
pub fn nth_reader(names: &[Vec<u8>], part: &str, nth: usize) -> (r: Option<usize>)
    ensures
        match r {
            Some(i) => i < names@.len() && holds(names@[i as int]@, part.spec_bytes())
                && matches_to(names@, part.spec_bytes(), i as int) == nth,
            None => matches_to(names@, part.spec_bytes(), names@.len() as int) <= nth,
        },
{
    let text: &[u8] = part.as_bytes();
    let mut seen: usize = 0;
    let mut i: usize = 0;
    while i < names.len()
        invariant
            i <= names@.len(),
            text@ == part.spec_bytes(),
            seen == matches_to(names@, text@, i as int),
            seen <= nth,
            seen <= i,
        decreases names@.len() - i,
    {
        if has_part(names[i].as_slice(), text) {
            if seen == nth {
                return Some(i);
            }
            seen = seen + 1;
        }
        i = i + 1;
    }
    None
}

} // verus!
