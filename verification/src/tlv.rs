//! BER-TLV reading and writing (ISO/IEC 7816-4 §5.2.2, X.690 §8.1).
//!
//! [`tlv_objects`] says what a byte string means as a sequence of top-level
//! objects, [`encoding`] what a sequence of objects looks like on the wire, and
//! [`law_parse_inverts_encode`] ties the two together.
use vstd::prelude::*;

use crate::limits::MAX_TLVS;

verus! {

/// Failure of a TLV read or write.
#[derive(Debug, Clone, Copy, PartialEq, Eq, Structural)]
pub enum TlvError {
    /// A tag, length or value runs past the end of the buffer.
    Truncated,
    /// A length or tag that this reader does not represent.
    BadLength,
    /// More than [`MAX_TLVS`] top-level objects.
    TooMany,
    /// The output buffer is too small.
    Overflow,
}

/// One tag-length-value object. The tag may span several octets, such as
/// `9F70`; the value borrows from the parsed input.
#[derive(Debug, Clone, Copy, PartialEq, Eq)]
pub struct Tlv<'a> {
    pub tag: u32,
    pub value: &'a [u8],
}

/// The mathematical content of a [`Tlv`].
pub struct TlvObject {
    pub tag: u32,
    pub value: Seq<u8>,
}

impl<'a> View for Tlv<'a> {
    type V = TlvObject;

    open spec fn view(&self) -> TlvObject {
        TlvObject { tag: self.tag, value: self.value@ }
    }
}

/// The contents of a list of objects.
pub open spec fn tlv_views(items: Seq<Tlv<'_>>) -> Seq<TlvObject> {
    items.map_values(|t: Tlv<'_>| t@)
}

/// Low five bits of the leading tag octet all set: the tag goes on.
const TAG_MULTIBYTE: u8 = 0x1F;

/// High bit of a further tag octet set: yet another octet follows.
const TAG_MORE: u8 = 0x80;

/// A `u32` holds four identifier octets.
const TAG_MAX_OCTETS: usize = 4;

/// High bit of the leading length octet set: the low bits count length octets.
const LEN_LONG: u8 = 0x80;

/// The number written big-endian in `s`.
pub open spec fn be_value(s: Seq<u8>) -> nat
    decreases s.len(),
{
    if s.len() == 0 {
        0
    } else {
        be_value(s.drop_last()) * 256 + s.last() as nat
    }
}

/// The shortest big-endian notation of `n`; zero takes one octet.
pub open spec fn be_octets(n: nat) -> Seq<u8>
    decreases n,
{
    if n < 256 {
        seq![n as u8]
    } else {
        be_octets(n / 256).push((n % 256) as u8)
    }
}

/// Continues a tag of which `used` octets were read and gave `acc`.
pub open spec fn tag_tail(s: Seq<u8>, used: nat, acc: nat) -> Result<(u32, nat), TlvError>
    decreases 5 - used,
{
    if used >= s.len() {
        Err(TlvError::Truncated)
    } else if used >= 4 {
        Err(TlvError::BadLength)
    } else if s[used as int] < 0x80 {
        Ok(((acc * 256 + s[used as int] as nat) as u32, used + 1))
    } else {
        tag_tail(s, used + 1, acc * 256 + s[used as int] as nat)
    }
}

/// The tag at the front of `s` and the number of octets that it takes.
pub open spec fn leading_tag(s: Seq<u8>) -> Result<(u32, nat), TlvError> {
    if s.len() == 0 {
        Err(TlvError::Truncated)
    } else if s[0] & 0x1F != 0x1F {
        Ok((s[0] as u32, 1))
    } else {
        tag_tail(s, 1, s[0] as nat)
    }
}

/// Octets in a machine word: the widest length that can index a buffer.
pub open spec fn word_octets() -> nat {
    (usize::BITS / 8) as nat
}

/// The definite length at the front of `s` and the number of octets that it
/// takes.
pub open spec fn leading_len(s: Seq<u8>) -> Result<(nat, nat), TlvError> {
    if s.len() == 0 {
        Err(TlvError::Truncated)
    } else if s[0] < 0x80 {
        Ok((s[0] as nat, 1))
    } else {
        let count = (s[0] - 0x80) as nat;
        if count == 0 || count > word_octets() {
            Err(TlvError::BadLength)
        } else if s.len() < 1 + count {
            Err(TlvError::Truncated)
        } else {
            Ok((be_value(s.subrange(1, 1 + count as int)), 1 + count))
        }
    }
}

/// The object at the front of `s` and the number of octets that it takes.
pub open spec fn leading_object(s: Seq<u8>) -> Result<(TlvObject, nat), TlvError> {
    match leading_tag(s) {
        Err(e) => Err(e),
        Ok((tag, n)) => match leading_len(s.skip(n as int)) {
            Err(e) => Err(e),
            Ok((len, m)) => if n + m + len > s.len() {
                Err(TlvError::Truncated)
            } else {
                Ok(
                    (
                        TlvObject { tag, value: s.subrange((n + m) as int, (n + m + len) as int) },
                        n + m + len,
                    ),
                )
            },
        },
    }
}

/// `prefix` in front of the items in `rest`.
pub open spec fn prepend<T>(prefix: Seq<T>, rest: Result<Seq<T>, TlvError>) -> Result<
    Seq<T>,
    TlvError,
> {
    match rest {
        Ok(objects) => Ok(prefix + objects),
        Err(e) => Err(e),
    }
}

/// The objects in `s`, where `seen` objects came before it.
pub open spec fn objects_after(s: Seq<u8>, seen: nat) -> Result<Seq<TlvObject>, TlvError>
    decreases s.len(),
{
    if s.len() == 0 {
        Ok(Seq::empty())
    } else {
        match leading_object(s) {
            Err(e) => Err(e),
            Ok((object, used)) => if seen >= MAX_TLVS {
                Err(TlvError::TooMany)
            } else if 0 < used <= s.len() {
                prepend(seq![object], objects_after(s.skip(used as int), seen + 1))
            } else {
                Err(TlvError::Truncated)
            },
        }
    }
}

/// What a byte string means as a sequence of top-level BER-TLV objects.
pub open spec fn tlv_objects(s: Seq<u8>) -> Result<Seq<TlvObject>, TlvError> {
    objects_after(s, 0)
}

/// The same, however many objects there are.
pub open spec fn all_objects(s: Seq<u8>) -> Result<Seq<TlvObject>, TlvError>
    decreases s.len(),
{
    if s.len() == 0 {
        Ok(Seq::empty())
    } else {
        match leading_object(s) {
            Err(e) => Err(e),
            Ok((object, used)) => if 0 < used <= s.len() {
                prepend(seq![object], all_objects(s.skip(used as int)))
            } else {
                Err(TlvError::Truncated)
            },
        }
    }
}

/// The outcome of [`parse`], with each object replaced by its content.
pub open spec fn parsed(r: Result<Vec<Tlv<'_>>, TlvError>) -> Result<Seq<TlvObject>, TlvError> {
    match r {
        Ok(items) => Ok(tlv_views(items@)),
        Err(e) => Err(e),
    }
}

/// Octets of a definite length in its shortest form.
pub open spec fn len_octets(len: nat) -> Seq<u8> {
    if len < 0x80 {
        seq![len as u8]
    } else {
        seq![(0x80 + be_octets(len).len()) as u8] + be_octets(len)
    }
}

/// Octets of one object.
pub open spec fn object_octets(o: TlvObject) -> Seq<u8> {
    be_octets(o.tag as nat) + len_octets(o.value.len()) + o.value
}

/// Octets of a sequence of objects.
pub open spec fn encoding(items: Seq<TlvObject>) -> Seq<u8>
    decreases items.len(),
{
    if items.len() == 0 {
        Seq::empty()
    } else {
        encoding(items.drop_last()) + object_octets(items.last())
    }
}

/// A tag whose shortest notation is a complete identifier: the leading octet
/// announces further octets exactly when there are some, and only the last one
/// ends the tag.
pub open spec fn tag_is_identifier(tag: u32) -> bool {
    let o = be_octets(tag as nat);
    &&& (o[0] & 0x1F == 0x1F) == (o.len() > 1)
    &&& forall|i: int| 1 <= i < o.len() ==> ((#[trigger] o[i]) < 0x80) == (i == o.len() - 1)
}

proof fn lemma_tag_width(s: Seq<u8>, used: nat, acc: nat)
    ensures
        tag_tail(s, used, acc) matches Ok((t, n)) ==> used < n <= s.len() && n <= 4,
    decreases 5 - used,
{
    if used < s.len() && used < 4 && s[used as int] >= 0x80 {
        lemma_tag_width(s, used + 1, acc * 256 + s[used as int] as nat);
    }
}

proof fn lemma_word_octets()
    ensures
        word_octets() == 4 && usize::MAX == 0xffff_ffff || word_octets() == 8 && usize::MAX
            == 0xffff_ffff_ffff_ffff,
{
}

/// `n` octets hold less than `bound` when `bound` is that power of 256.
proof fn lemma_be_value_bound(s: Seq<u8>)
    requires
        s.len() <= 8,
    ensures
        s.len() == 0 ==> be_value(s) < 1,
        s.len() == 1 ==> be_value(s) < 0x100,
        s.len() == 2 ==> be_value(s) < 0x1_0000,
        s.len() == 3 ==> be_value(s) < 0x100_0000,
        s.len() == 4 ==> be_value(s) < 0x1_0000_0000,
        s.len() == 5 ==> be_value(s) < 0x100_0000_0000,
        s.len() == 6 ==> be_value(s) < 0x1_0000_0000_0000,
        s.len() == 7 ==> be_value(s) < 0x100_0000_0000_0000,
        s.len() == 8 ==> be_value(s) < 0x1_0000_0000_0000_0000,
    decreases s.len(),
{
    if s.len() > 0 {
        lemma_be_value_bound(s.drop_last());
    }
}

/// Reads the tag at `pos` and the position behind it.
fn parse_tag(input: &[u8], pos: usize) -> (r: Result<(u32, usize), TlvError>)
    requires
        pos <= input@.len(),
    ensures
        match leading_tag(input@.skip(pos as int)) {
            Ok((tag, n)) => r matches Ok((t, p)) && t == tag && p == pos + n && pos < p
                <= input@.len(),
            Err(e) => r matches Err(err) && err == e,
        },
{
    let ghost s = input@.skip(pos as int);
    if pos >= input.len() {
        return Err(TlvError::Truncated);
    }
    let b0: u8 = input[pos];
    assert(s[0] == b0);
    if b0 & TAG_MULTIBYTE != TAG_MULTIBYTE {
        return Ok((b0 as u32, pos + 1));
    }
    let mut tag: u32 = b0 as u32;
    let mut octets: usize = 1;
    loop
        invariant
            pos < input@.len(),
            1 <= octets <= 4,
            pos + octets <= input@.len(),
            s == input@.skip(pos as int),
            octets == 1 ==> tag < 0x100,
            octets == 2 ==> tag < 0x1_0000,
            octets == 3 ==> tag < 0x100_0000,
            leading_tag(s) == tag_tail(s, octets as nat, tag as nat),
        decreases 5 - octets,
    {
        if octets >= input.len() - pos {
            return Err(TlvError::Truncated);
        }
        if octets >= TAG_MAX_OCTETS {
            return Err(TlvError::BadLength);
        }
        let b: u8 = input[pos + octets];
        assert(s[octets as int] == b);
        tag = tag * 256 + b as u32;
        octets = octets + 1;
        if b < TAG_MORE {
            return Ok((tag, pos + octets));
        }
    }
}

/// Reads the definite length at `pos` and the position behind it.
fn parse_len(input: &[u8], pos: usize) -> (r: Result<(usize, usize), TlvError>)
    requires
        pos <= input@.len(),
    ensures
        match leading_len(input@.skip(pos as int)) {
            Ok((len, n)) => r matches Ok((l, p)) && l == len && p == pos + n && pos < p
                <= input@.len(),
            Err(e) => r matches Err(err) && err == e,
        },
{
    let ghost s = input@.skip(pos as int);
    if pos >= input.len() {
        return Err(TlvError::Truncated);
    }
    let b0: u8 = input[pos];
    assert(s[0] == b0);
    if b0 < LEN_LONG {
        return Ok((b0 as usize, pos + 1));
    }
    let count: usize = (b0 - LEN_LONG) as usize;
    if count == 0 || count > (usize::BITS / 8) as usize {
        return Err(TlvError::BadLength);
    }
    if input.len() - pos < 1 + count {
        return Err(TlvError::Truncated);
    }
    let mut len: usize = 0;
    let mut i: usize = 0;
    while i < count
        invariant
            i <= count <= word_octets(),
            pos + 1 + count <= input.len(),
            s == input@.skip(pos as int),
            len == be_value(s.subrange(1, 1 + i as int)),
        decreases count - i,
    {
        let b: u8 = input[pos + 1 + i];
        let ghost cur = s.subrange(1, 1 + i as int);
        let ghost next = s.subrange(1, 2 + i as int);
        proof {
            assert(next.drop_last() =~= cur);
            assert(next.last() == b);
            lemma_be_value_bound(next);
            lemma_word_octets();
        }
        len = len * 256 + b as usize;
        i = i + 1;
    }
    Ok((len, pos + 1 + count))
}

/// Reads the object at `pos` and the position behind it.
fn parse_object<'a>(input: &'a [u8], pos: usize) -> (r: Result<(Tlv<'a>, usize), TlvError>)
    requires
        pos < input@.len(),
    ensures
        match leading_object(input@.skip(pos as int)) {
            Ok((object, used)) => r matches Ok((item, end)) && item@ == object && end == pos + used
                && pos < end <= input@.len(),
            Err(e) => r matches Err(err) && err == e,
        },
{
    let ghost s = input@.skip(pos as int);
    proof {
        lemma_tag_width(s, 1, s[0] as nat);
    }
    let (tag, after_tag) = parse_tag(input, pos)?;
    assert(input@.skip(after_tag as int) =~= s.skip(after_tag - pos));
    let (len, start) = parse_len(input, after_tag)?;
    if len > input.len() - start {
        return Err(TlvError::Truncated);
    }
    let end: usize = start + len;
    let value: &'a [u8] = &input[start..end];
    assert(value@ =~= s.subrange(start - pos, end - pos));
    Ok((Tlv { tag, value }, end))
}

/// Reads the top-level objects of `input`. Values borrow from it.
pub fn parse<'a>(input: &'a [u8]) -> (r: Result<Vec<Tlv<'a>>, TlvError>)
    ensures
        parsed(r) == tlv_objects(input@),
        r matches Ok(items) ==> items@.len() <= MAX_TLVS,
{
    let mut out: Vec<Tlv<'a>> = Vec::new();
    let mut pos: usize = 0;
    assert(input@.skip(0) =~= input@);
    assert(prepend(tlv_views(out@), tlv_objects(input@)) == tlv_objects(input@)) by {
        match tlv_objects(input@) {
            Ok(objects) => assert(tlv_views(out@) + objects =~= objects),
            Err(e) => {},
        }
    }
    while pos < input.len()
        invariant
            pos <= input@.len(),
            out@.len() <= MAX_TLVS,
            tlv_objects(input@) == prepend(
                tlv_views(out@),
                objects_after(input@.skip(pos as int), out@.len()),
            ),
        decreases input@.len() - pos,
    {
        let ghost s = input@.skip(pos as int);
        let (item, end) = parse_object(input, pos)?;
        if out.len() >= MAX_TLVS {
            return Err(TlvError::TooMany);
        }
        let ghost before = tlv_views(out@);
        let ghost seen = out@.len();
        let ghost rest = objects_after(input@.skip(end as int), seen + 1);
        proof {
            assert(s.skip(end - pos) =~= input@.skip(end as int));
            assert(objects_after(s, seen) == prepend(seq![item@], rest));
        }
        out.push(item);
        proof {
            assert(tlv_views(out@) =~= before + seq![item@]);
            match rest {
                Ok(objects) => assert(before + (seq![item@] + objects) =~= tlv_views(out@)
                    + objects),
                Err(e) => {},
            }
        }
        pos = end;
    }
    proof {
        assert(input@.skip(pos as int).len() == 0);
        assert(tlv_views(out@) + Seq::<TlvObject>::empty() =~= tlv_views(out@));
    }
    Ok(out)
}

/// Reads all top-level objects of `input`, however many there are.
pub(crate) fn parse_all<'a>(input: &'a [u8]) -> (r: Result<Vec<Tlv<'a>>, TlvError>)
    ensures
        parsed(r) == all_objects(input@),
{
    let mut out: Vec<Tlv<'a>> = Vec::new();
    let mut pos: usize = 0;
    assert(input@.skip(0) =~= input@);
    assert(prepend(tlv_views(out@), all_objects(input@)) == all_objects(input@)) by {
        match all_objects(input@) {
            Ok(objects) => assert(tlv_views(out@) + objects =~= objects),
            Err(e) => {},
        }
    }
    while pos < input.len()
        invariant
            pos <= input@.len(),
            all_objects(input@) == prepend(tlv_views(out@), all_objects(input@.skip(pos as int))),
        decreases input@.len() - pos,
    {
        let ghost s = input@.skip(pos as int);
        let (item, end) = parse_object(input, pos)?;
        let ghost before = tlv_views(out@);
        let ghost rest = all_objects(input@.skip(end as int));
        proof {
            assert(s.skip(end - pos) =~= input@.skip(end as int));
            assert(all_objects(s) == prepend(seq![item@], rest));
        }
        out.push(item);
        proof {
            assert(tlv_views(out@) =~= before + seq![item@]);
            match rest {
                Ok(objects) => assert(before + (seq![item@] + objects) =~= tlv_views(out@)
                    + objects),
                Err(e) => {},
            }
        }
        pos = end;
    }
    proof {
        assert(input@.skip(pos as int).len() == 0);
        assert(tlv_views(out@) + Seq::<TlvObject>::empty() =~= tlv_views(out@));
    }
    Ok(out)
}

/// `n` in its shortest big-endian notation.
fn octets_of(n: usize) -> (r: Vec<u8>)
    ensures
        r@ == be_octets(n as nat),
    decreases n,
{
    if n < 256 {
        let mut v: Vec<u8> = Vec::new();
        v.push(n as u8);
        assert(v@ =~= be_octets(n as nat));
        v
    } else {
        let mut v: Vec<u8> = octets_of(n / 256);
        v.push((n % 256) as u8);
        v
    }
}

/// The buffer `before` with `bytes` written over its front.
pub open spec fn overwritten(before: Seq<u8>, bytes: Seq<u8>) -> Seq<u8> {
    bytes + before.skip(bytes.len() as int)
}

/// What writing `bytes` at `pos` does: all of them go in, or nothing is written.
pub open spec fn put_at(
    r: Result<usize, TlvError>,
    before: Seq<u8>,
    after: Seq<u8>,
    pos: int,
    bytes: Seq<u8>,
) -> bool {
    if pos + bytes.len() <= before.len() {
        &&& r matches Ok(p) && p == pos + bytes.len()
        &&& after == before.take(pos) + bytes + before.skip(pos + bytes.len())
    } else {
        &&& r == Err::<usize, TlvError>(TlvError::Overflow)
        &&& after == before
    }
}

/// Copies `src` into `out` at `pos` and returns the position behind it.
fn write_bytes(out: &mut [u8], pos: usize, src: &[u8]) -> (r: Result<usize, TlvError>)
    requires
        pos <= old(out)@.len(),
    ensures
        final(out)@.len() == old(out)@.len(),
        put_at(r, old(out)@, final(out)@, pos as int, src@),
{
    if src.len() > out.len() - pos {
        return Err(TlvError::Overflow);
    }
    let ghost before = out@;
    let mut i: usize = 0;
    while i < src.len()
        invariant
            i <= src@.len(),
            pos + src.len() <= out.len(),
            out@.len() == before.len(),
            out@ == before.take(pos as int) + src@.take(i as int) + before.skip(pos + i),
        decreases src@.len() - i,
    {
        out[pos + i] = src[i];
        i = i + 1;
        assert(out@ =~= before.take(pos as int) + src@.take(i as int) + before.skip(pos + i));
    }
    assert(src@.take(i as int) =~= src@);
    Ok(pos + src.len())
}

/// Writes a tag as its shortest identifier octets.
fn write_tag(tag: u32, out: &mut [u8], pos: usize) -> (r: Result<usize, TlvError>)
    requires
        pos <= old(out)@.len(),
    ensures
        final(out)@.len() == old(out)@.len(),
        put_at(r, old(out)@, final(out)@, pos as int, be_octets(tag as nat)),
{
    let octets: Vec<u8> = octets_of(tag as usize);
    write_bytes(out, pos, octets.as_slice())
}

/// Writes a definite length in its shortest form.
fn write_len(len: usize, out: &mut [u8], pos: usize) -> (r: Result<usize, TlvError>)
    requires
        pos <= old(out)@.len(),
    ensures
        final(out)@.len() == old(out)@.len(),
        put_at(r, old(out)@, final(out)@, pos as int, len_octets(len as nat)),
{
    let mut octets: Vec<u8> = Vec::new();
    if len < LEN_LONG as usize {
        octets.push(len as u8);
    } else {
        let mut body: Vec<u8> = octets_of(len);
        proof {
            lemma_be_octets_width(len as nat);
            lemma_word_octets();
        }
        octets.push(LEN_LONG + body.len() as u8);
        octets.append(&mut body);
    }
    assert(octets@ =~= len_octets(len as nat));
    write_bytes(out, pos, octets.as_slice())
}

/// A number below a power of 256 takes no more octets than that power.
proof fn lemma_be_octets_width(n: nat)
    ensures
        be_octets(n).len() >= 1,
        n < 0x1_0000_0000 ==> be_octets(n).len() <= 4,
        n < 0x1_0000_0000_0000_0000 ==> be_octets(n).len() <= 8,
{
    reveal_with_fuel(be_octets, 9);
}

/// Writes `items` to the front of `out` and returns the number of octets. When
/// the buffer is too small, what was written is a beginning of the encoding.
pub fn encode(items: &[Tlv<'_>], out: &mut [u8]) -> (r: Result<usize, TlvError>)
    ensures
        final(out)@.len() == old(out)@.len(),
        encoding(tlv_views(items@)).len() <= old(out)@.len() ==> (r matches Ok(n) && n == encoding(
            tlv_views(items@),
        ).len()) && final(out)@ == overwritten(old(out)@, encoding(tlv_views(items@))),
        encoding(tlv_views(items@)).len() > old(out)@.len() ==> r == Err::<usize, TlvError>(
            TlvError::Overflow,
        ) && exists|k: int|
            0 <= k <= old(out)@.len() && final(out)@ == overwritten(
                old(out)@,
                #[trigger] encoding(tlv_views(items@)).take(k),
            ),
{
    let ghost before = out@;
    let ghost all = tlv_views(items@);
    let ghost total = encoding(all);
    let mut pos: usize = 0;
    let mut i: usize = 0;
    assert(total.take(0) =~= Seq::empty());
    assert(out@ =~= overwritten(before, total.take(0)));
    assert(all.take(0) =~= Seq::empty());
    while i < items.len()
        invariant
            i <= items@.len(),
            all == tlv_views(items@),
            total == encoding(all),
            before == old(out)@,
            out@.len() == before.len(),
            pos == encoding(all.take(i as int)).len(),
            pos <= total.len(),
            pos <= before.len(),
            total.take(pos as int) == encoding(all.take(i as int)),
            out@ == overwritten(before, total.take(pos as int)),
        decreases items@.len() - i,
    {
        let item: &Tlv<'_> = &items[i];
        let ghost tag_part = be_octets(item.tag as nat);
        let ghost len_part = len_octets(item.value@.len());
        let ghost head = encoding(all.take(i as int));
        proof {
            assert(all.take(i + 1).drop_last() =~= all.take(i as int));
            assert(all.take(i + 1).last() == item@);
            lemma_encoding_prefix(all, i + 1);
            assert(encoding(all.take(i + 1)) == head + (tag_part + len_part + item.value@));
        }
        let ghost upto_tag = head + tag_part;
        let ghost upto_len = head + tag_part + len_part;
        let ghost upto_all = head + (tag_part + len_part + item.value@);
        assert(total.take(upto_all.len() as int) == upto_all);
        assert(total.take(upto_tag.len() as int) =~= upto_tag) by {
            assert(upto_tag =~= upto_all.take(upto_tag.len() as int));
        }
        assert(total.take(upto_len.len() as int) =~= upto_len) by {
            assert(upto_len =~= upto_all.take(upto_len.len() as int));
        }
        let p1: usize = match write_tag(item.tag, out, pos) {
            Ok(p) => p,
            Err(e) => {
                return Err(e);
            },
        };
        proof {
            lemma_overwrite_more(before, head, tag_part);
        }
        let p2: usize = match write_len(item.value.len(), out, p1) {
            Ok(p) => p,
            Err(e) => {
                return Err(e);
            },
        };
        proof {
            lemma_overwrite_more(before, upto_tag, len_part);
        }
        let p3: usize = match write_bytes(out, p2, item.value) {
            Ok(p) => p,
            Err(e) => {
                return Err(e);
            },
        };
        proof {
            lemma_overwrite_more(before, upto_len, item.value@);
            assert(upto_all =~= upto_len + item.value@);
        }
        pos = p3;
        i = i + 1;
    }
    assert(all.take(i as int) =~= all);
    assert(total.take(pos as int) =~= total);
    Ok(pos)
}

/// Writing `piece` right behind `head`.
proof fn lemma_overwrite_more(before: Seq<u8>, head: Seq<u8>, piece: Seq<u8>)
    requires
        head.len() + piece.len() <= before.len(),
    ensures
        overwritten(before, head).take(head.len() as int) + piece + overwritten(before, head).skip(
            (head.len() + piece.len()) as int,
        ) == overwritten(before, head + piece),
{
    assert(overwritten(before, head).take(head.len() as int) + piece + overwritten(
        before,
        head,
    ).skip((head.len() + piece.len()) as int) =~= overwritten(before, head + piece));
}

/// The encoding of a beginning is a beginning of the encoding.
proof fn lemma_encoding_prefix(items: Seq<TlvObject>, k: int)
    requires
        0 <= k <= items.len(),
    ensures
        encoding(items.take(k)).len() <= encoding(items).len(),
        encoding(items).take(encoding(items.take(k)).len() as int) == encoding(items.take(k)),
    decreases items.len(),
{
    if k == items.len() {
        assert(items.take(k) =~= items);
        assert(encoding(items).take(encoding(items).len() as int) =~= encoding(items));
    } else {
        lemma_encoding_prefix(items.drop_last(), k);
        assert(items.drop_last().take(k) =~= items.take(k));
        let n = encoding(items.take(k)).len() as int;
        assert(encoding(items).take(n) =~= encoding(items.drop_last()).take(n));
    }
}

proof fn lemma_be_round_trip(n: nat)
    ensures
        be_value(be_octets(n)) == n,
    decreases n,
{
    if n < 256 {
        assert(be_octets(n).drop_last() =~= Seq::empty());
        assert(be_value(be_octets(n).drop_last()) == 0);
    } else {
        lemma_be_round_trip(n / 256);
        assert(be_octets(n).drop_last() =~= be_octets(n / 256));
    }
}

/// Reading a complete identifier octet by octet.
proof fn lemma_tag_tail_reads(o: Seq<u8>, rest: Seq<u8>, used: nat)
    requires
        1 <= used < o.len() <= 4,
        forall|i: int| 1 <= i < o.len() ==> ((#[trigger] o[i]) < 0x80) == (i == o.len() - 1),
    ensures
        tag_tail(o + rest, used, be_value(o.take(used as int))) == Ok::<(u32, nat), TlvError>(
            (be_value(o) as u32, o.len()),
        ),
    decreases o.len() - used,
{
    let acc = be_value(o.take(used as int));
    let next = o.take(used as int + 1);
    assert(next.drop_last() =~= o.take(used as int));
    assert(be_value(next) == acc * 256 + o[used as int] as nat);
    assert((o + rest)[used as int] == o[used as int]);
    if used + 1 == o.len() {
        assert(next =~= o);
    } else {
        lemma_tag_tail_reads(o, rest, used + 1);
    }
}

proof fn lemma_tag_reads(tag: u32, rest: Seq<u8>)
    requires
        tag_is_identifier(tag),
    ensures
        leading_tag(be_octets(tag as nat) + rest) == Ok::<(u32, nat), TlvError>(
            (tag, be_octets(tag as nat).len()),
        ),
{
    let o = be_octets(tag as nat);
    lemma_be_octets_width(tag as nat);
    lemma_be_round_trip(tag as nat);
    assert((o + rest)[0] == o[0]);
    let first = o.take(1);
    assert(first.drop_last() =~= Seq::empty());
    assert(be_value(first.drop_last()) == 0);
    assert(be_value(first) == o[0] as nat);
    if o.len() > 1 {
        lemma_tag_tail_reads(o, rest, 1);
    } else {
        assert(first =~= o);
    }
}

proof fn lemma_len_reads(len: nat, rest: Seq<u8>)
    requires
        len <= usize::MAX,
    ensures
        leading_len(len_octets(len) + rest) == Ok::<(nat, nat), TlvError>(
            (len, len_octets(len).len()),
        ),
{
    let o = len_octets(len);
    if len >= 0x80 {
        lemma_be_octets_width(len);
        lemma_be_round_trip(len);
        lemma_word_octets();
        let count = be_octets(len).len();
        assert((o + rest)[0] == 0x80 + count);
        assert((o + rest).subrange(1, 1 + count as int) =~= be_octets(len));
    }
}

/// An object that the encoder writes is the object that the reader finds.
proof fn lemma_object_reads(o: TlvObject, rest: Seq<u8>)
    requires
        tag_is_identifier(o.tag),
        o.value.len() <= usize::MAX,
    ensures
        leading_object(object_octets(o) + rest) == Ok::<(TlvObject, nat), TlvError>(
            (o, object_octets(o).len()),
        ),
{
    let t = be_octets(o.tag as nat);
    let l = len_octets(o.value.len());
    let s = object_octets(o) + rest;
    assert(s =~= t + (l + (o.value + rest)));
    lemma_tag_reads(o.tag, l + (o.value + rest));
    assert(s.skip(t.len() as int) =~= l + (o.value + rest));
    lemma_len_reads(o.value.len(), o.value + rest);
    assert(s.subrange((t.len() + l.len()) as int, (t.len() + l.len() + o.value.len()) as int)
        =~= o.value);
}

proof fn lemma_encoding_reads(items: Seq<TlvObject>, from: int)
    requires
        0 <= from <= items.len() <= MAX_TLVS,
        forall|i: int|
            0 <= i < items.len() ==> tag_is_identifier((#[trigger] items[i]).tag)
                && items[i].value.len() <= usize::MAX,
    ensures
        objects_after(encoding(items.skip(from)), from as nat) == Ok::<Seq<TlvObject>, TlvError>(
            items.skip(from),
        ),
    decreases items.len() - from,
{
    let tail = items.skip(from);
    if from == items.len() {
        assert(tail =~= Seq::empty());
    } else {
        let o = items[from];
        let rest = encoding(items.skip(from + 1));
        lemma_encoding_front(tail);
        assert(tail.skip(1) =~= items.skip(from + 1));
        lemma_object_reads(o, rest);
        lemma_encoding_reads(items, from + 1);
        let s = object_octets(o) + rest;
        lemma_be_octets_width(o.tag as nat);
        assert(s.skip(object_octets(o).len() as int) =~= rest);
        assert(seq![o] + items.skip(from + 1) =~= tail);
    }
}

/// The encoding starts with the first object.
proof fn lemma_encoding_front(items: Seq<TlvObject>)
    requires
        items.len() > 0,
    ensures
        encoding(items) == object_octets(items[0]) + encoding(items.skip(1)),
    decreases items.len(),
{
    let init = items.drop_last();
    if items.len() == 1 {
        assert(init =~= Seq::empty());
        assert(items.skip(1) =~= Seq::empty());
        assert(encoding(items) =~= object_octets(items[0]) + encoding(items.skip(1)));
    } else {
        lemma_encoding_front(init);
        assert(items.skip(1).drop_last() =~= init.skip(1));
        assert(encoding(items) =~= object_octets(items[0]) + encoding(items.skip(1)));
    }
}

/// Reading what was written gives the same objects back, and in particular the
/// reader accepts every encoding of objects with complete tags.
pub proof fn law_parse_inverts_encode(items: Seq<TlvObject>)
    requires
        items.len() <= MAX_TLVS,
        forall|i: int|
            0 <= i < items.len() ==> tag_is_identifier((#[trigger] items[i]).tag)
                && items[i].value.len() <= usize::MAX,
    ensures
        tlv_objects(encoding(items)) == Ok::<Seq<TlvObject>, TlvError>(items),
{
    lemma_encoding_reads(items, 0);
    assert(items.skip(0) =~= items);
}

/// Every tag of one octet that announces no further one, and every tag `9Fxx`
/// with `xx` below `80`, is complete.
pub proof fn law_card_tags_are_identifiers(tag: u32)
    requires
        tag <= 0xFF && (tag as u8) & 0x1F != 0x1F || 0x9F00 <= tag <= 0x9F7F,
    ensures
        tag_is_identifier(tag),
{
    reveal_with_fuel(be_octets, 3);
    if tag > 0xFF {
        assert(0x9Fu8 & 0x1F == 0x1F) by (bit_vector);
        assert(be_octets(tag as nat) =~= seq![0x9Fu8, (tag % 256) as u8]);
    }
}

} // verus!
