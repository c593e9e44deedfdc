//! BER-TLV objects, octet by octet.
use vstd::prelude::*;

use crate::laws::octets::{lemma_number_push, number};
use crate::limits::MAX_TLVS;
use crate::tlv::{
    all_objects, be_octets, be_value, encoding, law_parse_inverts_encode, leading_len,
    leading_object, leading_tag, len_octets, object_octets, objects_after, tag_is_identifier,
    tag_tail, tlv_objects, word_octets, TlvError, TlvObject,
};

verus! {

/// Both readings of big-endian octets agree.
pub proof fn lemma_same_number(s: Seq<u8>)
    ensures
        be_value(s) == number(s),
    decreases s.len(),
{
    if s.len() > 0 {
        lemma_same_number(s.drop_last());
    }
}

/// The shortest notation of a number stands for it and has no zero in front, but for the
/// number zero, which is one octet.
pub proof fn law_shortest_notation(n: nat)
    ensures
        number(be_octets(n)) == n,
        be_octets(n).len() >= 1,
        be_octets(n).len() > 1 ==> be_octets(n)[0] != 0,
        n < 256 <==> be_octets(n).len() == 1,
    decreases n,
{
    if n < 256 {
        lemma_number_push(Seq::empty(), n as u8);
        assert(be_octets(n) =~= Seq::<u8>::empty().push(n as u8));
        assert(number(Seq::<u8>::empty()) == 0);
    } else {
        law_shortest_notation(n / 256);
        lemma_number_push(be_octets(n / 256), (n % 256) as u8);
        assert(n / 256 > 0);
        if n / 256 < 256 {
            assert(be_octets(n / 256)[0] == n / 256);
        }
    }
}

/// A length that is written: below 128 in one octet, and otherwise in as many as are
/// counted, above 128, in the octet before them.
pub proof fn law_length_octets(len: nat)
    requires
        len < 0x1_0000_0000_0000_0000,
    ensures
        len < 128 ==> len_octets(len).len() == 1 && len_octets(len)[0] == len,
        len >= 128 ==> {
            &&& len_octets(len)[0] == 128 + (len_octets(len).len() - 1)
            &&& number(len_octets(len).skip(1)) == len
            &&& len_octets(len)[1] != 0
        },
{
    if len >= 128 {
        law_shortest_notation(len);
        lemma_octet_count(len, 8);
        assert(len_octets(len).skip(1) =~= be_octets(len));
        if be_octets(len).len() == 1 {
            assert(be_octets(len)[0] == len);
        }
    }
}

/// How many octets a number takes.
proof fn lemma_octet_count(n: nat, k: nat)
    requires
        k <= 8,
        k >= 1,
        k == 1 ==> n < 0x100,
        k == 2 ==> n < 0x1_0000,
        k == 3 ==> n < 0x100_0000,
        k == 4 ==> n < 0x1_0000_0000,
        k == 5 ==> n < 0x100_0000_0000,
        k == 6 ==> n < 0x1_0000_0000_0000,
        k == 7 ==> n < 0x100_0000_0000_0000,
        k == 8 ==> n < 0x1_0000_0000_0000_0000,
    ensures
        be_octets(n).len() <= k,
    decreases k,
{
    if n >= 256 {
        lemma_octet_count(n / 256, (k - 1) as nat);
    }
}

/// An object that is written: its tag, its length and its value.
pub proof fn law_object_octets(o: TlvObject)
    requires
        o.value.len() < 0x1_0000_0000_0000_0000,
    ensures
        ({
            let s = object_octets(o);
            let n = s.len() - o.value.len() - len_octets(o.value.len()).len();
            &&& n >= 1
            &&& number(s.take(n)) == o.tag
            &&& s.subrange(n, s.len() - o.value.len()) == len_octets(o.value.len())
            &&& s.skip(s.len() - o.value.len()) == o.value
        }),
{
    law_shortest_notation(o.tag as nat);
    let s = object_octets(o);
    let t = be_octets(o.tag as nat);
    assert(s.take(t.len() as int) =~= t);
    assert(s.subrange(t.len() as int, s.len() - o.value.len()) =~= len_octets(o.value.len()));
    assert(s.skip(s.len() - o.value.len()) =~= o.value);
}

/// Objects are written one behind the other.
pub proof fn law_objects_follow_each_other(items: Seq<TlvObject>, more: Seq<TlvObject>)
    ensures
        encoding(items + more) == encoding(items) + encoding(more),
        items.len() == 1 ==> encoding(items) == object_octets(items[0]),
    decreases more.len(),
{
    if items.len() == 1 {
        assert(items.drop_last() =~= Seq::empty());
        assert(encoding(items.drop_last()) =~= Seq::empty());
        assert(encoding(items) =~= object_octets(items[0]));
    }
    let both = items + more;
    if more.len() == 0 {
        assert(both =~= items);
        assert(encoding(items) + encoding(more) =~= encoding(items));
    } else {
        assert(both.drop_last() =~= items + more.drop_last());
        law_objects_follow_each_other(items, more.drop_last());
        assert(encoding(both) =~= encoding(items) + encoding(more));
    }
}

/// A tag is the number in its octets. It has one octet unless the low five bits of that
/// are all set; then it goes on up to the first octet below 128, to four at most.
pub proof fn law_leading_tag(s: Seq<u8>)
    ensures
        leading_tag(s) matches Ok((tag, n)) ==> {
            &&& 1 <= n <= 4
            &&& n <= s.len()
            &&& tag == number(s.take(n as int))
            &&& (s[0] & 0x1F == 0x1F) == (n > 1)
            &&& n > 1 ==> s[n - 1] < 128
            &&& forall|i: int| 1 <= i < n - 1 ==> #[trigger] s[i] >= 128
        },
        s.len() == 0 ==> leading_tag(s) is Err,
        s.len() > 0 && s[0] & 0x1F != 0x1F ==> leading_tag(s) is Ok,
{
    if s.len() > 0 {
        assert(s.take(1) =~= Seq::<u8>::empty().push(s[0]));
        lemma_number_push(Seq::empty(), s[0]);
        assert(number(Seq::<u8>::empty()) == 0);
        if s[0] & 0x1F == 0x1F {
            lemma_tag_tail(s, 1, s[0] as nat);
        }
    }
}

proof fn lemma_tag_tail(s: Seq<u8>, used: nat, acc: nat)
    requires
        1 <= used,
        used <= s.len(),
        used <= 4,
        acc == number(s.take(used as int)),
        used == 1 ==> acc < 0x100,
        used == 2 ==> acc < 0x1_0000,
        used == 3 ==> acc < 0x100_0000,
    ensures
        tag_tail(s, used, acc) matches Ok((tag, n)) ==> {
            &&& used < n <= 4
            &&& n <= s.len()
            &&& tag == number(s.take(n as int))
            &&& s[n - 1] < 128
            &&& forall|i: int| used <= i < n - 1 ==> #[trigger] s[i] >= 128
        },
    decreases 5 - used,
{
    if used < s.len() && used < 4 {
        assert(s.take(used as int + 1) =~= s.take(used as int).push(s[used as int]));
        lemma_number_push(s.take(used as int), s[used as int]);
        if s[used as int] >= 128 {
            lemma_tag_tail(s, used + 1, acc * 256 + s[used as int] as nat);
        }
    }
}

/// A length is its one octet below 128, and otherwise the number in as many octets as
/// that says above 128. An indefinite length (128) and one of more octets than a machine
/// word are refused.
pub proof fn law_leading_length(s: Seq<u8>)
    ensures
        s.len() == 0 ==> leading_len(s) is Err,
        s.len() > 0 && s[0] < 128 ==> leading_len(s) == Ok::<(nat, nat), TlvError>(
            (s[0] as nat, 1),
        ),
        s.len() > 0 && s[0] == 128 ==> leading_len(s) is Err,
        s.len() > 0 && 128 < s[0] <= 132 && s.len() >= 1 + (s[0] - 128) ==> leading_len(s) == Ok::<
            (nat, nat),
            TlvError,
        >((number(s.subrange(1, 1 + (s[0] - 128))), (1 + (s[0] - 128)) as nat)),
        s.len() > 0 && s[0] > 128 && s.len() < 1 + (s[0] - 128) ==> leading_len(s) is Err,
        s.len() > 0 && s[0] > 136 ==> leading_len(s) is Err,
{
    if s.len() > 0 && s[0] > 128 {
        let count = s[0] - 128;
        if s.len() >= 1 + count {
            lemma_same_number(s.subrange(1, 1 + count));
        }
        assert(word_octets() == 4 || word_octets() == 8);
    }
}

/// The object in front of some octets is its tag, its length, and as many octets behind
/// them as the length says; where they are not all there, there is none.
pub proof fn law_leading_object(s: Seq<u8>)
    ensures
        match (leading_tag(s), leading_len(s.skip(leading_tag(s)->Ok_0.1 as int))) {
            (Ok((tag, n)), Ok((len, m))) => if n + m + len <= s.len() {
                leading_object(s) matches Ok((o, used)) && {
                    &&& o.tag == tag
                    &&& o.value == s.subrange((n + m) as int, (n + m + len) as int)
                    &&& used == n + m + len
                }
            } else {
                leading_object(s) is Err
            },
            _ => leading_object(s) is Err,
        },
{
}

/// What is read is what stands there, object by object: the first object, and behind it
/// the rest. More objects than there is room for are refused by the one reader and kept
/// by the other.
pub proof fn law_objects_are_read_in_order(s: Seq<u8>, first: TlvObject, used: nat)
    requires
        s.len() > 0,
        leading_object(s) == Ok::<(TlvObject, nat), TlvError>((first, used)),
        0 < used <= s.len(),
    ensures
        match all_objects(s.skip(used as int)) {
            Ok(rest) => all_objects(s) matches Ok(objects) && objects[0] == first && objects.skip(1)
                == rest,
            Err(e) => all_objects(s) is Err,
        },
        tlv_objects(s) matches Ok(objects) ==> objects.len() <= MAX_TLVS && all_objects(s)
            == tlv_objects(s),
        all_objects(s) matches Ok(objects) ==> (tlv_objects(s) is Ok <==> objects.len()
            <= MAX_TLVS),
{
    if let Ok(rest) = all_objects(s.skip(used as int)) {
        assert((seq![first] + rest).skip(1) =~= rest);
    }
    lemma_bounded_reading(s, 0);
}

/// Both readers agree as far as there is room.
pub proof fn lemma_bounded_reading(s: Seq<u8>, seen: nat)
    requires
        seen <= MAX_TLVS,
    ensures
        objects_after(s, seen) matches Ok(objects) ==> seen + objects.len() <= MAX_TLVS
            && all_objects(s) == objects_after(s, seen),
        all_objects(s) matches Ok(objects) ==> (objects_after(s, seen) is Ok <==> seen
            + objects.len() <= MAX_TLVS),
    decreases s.len(),
{
    if s.len() > 0 {
        if let Ok((object, used)) = leading_object(s) {
            if 0 < used <= s.len() && seen < MAX_TLVS {
                lemma_bounded_reading(s.skip(used as int), seen + 1);
            }
        }
    }
}

/// However many objects were written, they are read.
pub proof fn law_all_objects_come_back(items: Seq<TlvObject>)
    requires
        items.len() <= MAX_TLVS,
        forall|i: int|
            0 <= i < items.len() ==> tag_is_identifier((#[trigger] items[i]).tag)
                && items[i].value.len() <= usize::MAX,
    ensures
        all_objects(encoding(items)) == Ok::<Seq<TlvObject>, TlvError>(items),
        tlv_objects(encoding(items)) == Ok::<Seq<TlvObject>, TlvError>(items),
{
    law_parse_inverts_encode(items);
    lemma_bounded_reading(encoding(items), 0);
}

} // verus!
