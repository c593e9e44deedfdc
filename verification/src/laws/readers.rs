//! Readers and the frames of a card simulator's bridge.
use vstd::prelude::*;

use crate::bridge::{field_value, length_field};
use crate::laws::octets::{lemma_number_4, number};
use crate::laws::texts::{law_numbers_are_read_again, plain};
use crate::reader::{holds, last_at, matches_to, selected, stands_at};
use crate::util::text;

verus! {

proof fn lemma_at(text: Seq<u8>, at: int)
    requires
        0 <= at < text.len(),
        text[at] == 0x40,
        forall|i: int| at < i < text.len() ==> text[i] != 0x40,
    ensures
        last_at(text) == Some(at),
    decreases text.len(),
{
    if at < text.len() - 1 {
        lemma_at(text.drop_last(), at);
    }
}

/// A name, an `@` and a number select the number of that name, whatever the name holds.
pub proof fn law_numbered_selector(name: Seq<u8>, n: usize)
    ensures
        selected(name + seq![0x40u8] + plain(text::decimal(n as nat))) == (name, Some(n)),
{
    let digits = plain(text::decimal(n as nat));
    let whole = name + seq![0x40u8] + digits;
    law_numbers_are_read_again(n as nat);
    assert forall|i: int| name.len() < i < whole.len() implies whole[i] != 0x40 by {
        assert(whole[i] == digits[i - name.len() - 1]);
    }
    lemma_at(whole, name.len() as int);
    assert(whole.skip(name.len() as int + 1) =~= digits);
    assert(whole.take(name.len() as int) =~= name);
}

/// Where no number stands behind an `@` the whole text is a name.
pub proof fn law_plain_selector(name: Seq<u8>, rest: Seq<u8>, i: int)
    requires
        forall|k: int| 0 <= k < rest.len() ==> rest[k] != 0x40,
    ensures
        selected(rest) == (rest, None::<usize>),
        0 <= i < rest.len() && !(0x30 <= rest[i] <= 0x39) ==> selected(name + seq![0x40u8] + rest)
            == (name + seq![0x40u8] + rest, None::<usize>),
        rest.len() == 0 ==> selected(name + seq![0x40u8] + rest) == (
            name + seq![0x40u8] + rest,
            None::<usize>,
        ),
{
    lemma_none(rest);
    let whole = name + seq![0x40u8] + rest;
    assert forall|k: int| name.len() < k < whole.len() implies whole[k] != 0x40 by {
        assert(whole[k] == rest[k - name.len() - 1]);
    }
    lemma_at(whole, name.len() as int);
    assert(whole.skip(name.len() as int + 1) =~= rest);
}

proof fn lemma_none(text: Seq<u8>)
    requires
        forall|k: int| 0 <= k < text.len() ==> text[k] != 0x40,
    ensures
        last_at(text) is None,
    decreases text.len(),
{
    if text.len() > 0 {
        lemma_none(text.drop_last());
    }
}

/// A name that has something before a part and something behind it holds the part, and
/// every name that holds a part is of that form.
pub proof fn law_parts_of_a_name(before: Seq<u8>, part: Seq<u8>, behind: Seq<u8>)
    ensures
        holds(before + part + behind, part),
        holds(behind, part) ==> exists|k: int|
            0 <= k && k + part.len() <= behind.len() && behind == #[trigger] behind.take(k) + part
                + behind.skip(k + part.len()),
{
    if holds(behind, part) {
        let k = choose|k: int| #[trigger] stands_at(behind, part, k);
        let cut = behind.subrange(k, k + part.len());
        assert(behind =~= behind.take(k) + cut + behind.skip(k + part.len()));
    }
    let name = before + part + behind;
    assert(name.subrange(before.len() as int, before.len() + part.len() as int) =~= part);
    assert(stands_at(name, part, before.len() as int));
}

/// The number of a reader is how many readers before it hold the part.
pub proof fn law_readers_are_counted(names: Seq<Vec<u8>>, part: Seq<u8>, k: int)
    requires
        0 <= k <= names.len(),
    ensures
        matches_to(names, part, k) == names.take(k).filter(
            |name: Vec<u8>| holds(name@, part),
        ).len(),
    decreases k,
{
    reveal(Seq::filter);
    if k > 0 {
        law_readers_are_counted(names, part, k - 1);
        assert(names.take(k).drop_last() =~= names.take(k - 1));
    }
}

/// The length in front of a frame has four octets, the most significant one first.
pub proof fn law_frame_length(len: nat, field: Seq<u8>)
    requires
        len <= u32::MAX,
        field.len() == 4,
    ensures
        length_field(len).len() == 4,
        number(length_field(len)) == len,
        field_value(field) == number(field),
{
    lemma_number_4(length_field(len));
    lemma_number_4(field);
}

} // verus!
