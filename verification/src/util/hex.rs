//! Bytes in hexadecimal.
use vstd::prelude::*;
use vstd::std_specs::cmp::PartialEqSpecImpl;

use crate::bytes::same_bytes;

verus! {

/// The digit of a value below 16.
pub open spec fn digit_char(n: u8) -> char {
    if n == 0 {
        '0'
    } else if n == 1 {
        '1'
    } else if n == 2 {
        '2'
    } else if n == 3 {
        '3'
    } else if n == 4 {
        '4'
    } else if n == 5 {
        '5'
    } else if n == 6 {
        '6'
    } else if n == 7 {
        '7'
    } else if n == 8 {
        '8'
    } else if n == 9 {
        '9'
    } else if n == 10 {
        'A'
    } else if n == 11 {
        'B'
    } else if n == 12 {
        'C'
    } else if n == 13 {
        'D'
    } else if n == 14 {
        'E'
    } else {
        'F'
    }
}

/// The two digits of a byte.
pub open spec fn byte_text(b: u8) -> Seq<char> {
    seq![digit_char(b / 16), digit_char(b % 16)]
}

/// The digits of several bytes.
pub open spec fn hex_text(bytes: Seq<u8>) -> Seq<char>
    decreases bytes.len(),
{
    if bytes.len() == 0 {
        Seq::empty()
    } else {
        hex_text(bytes.drop_last()) + byte_text(bytes.last())
    }
}

/// Several bytes, with a comma and a space in between.
pub open spec fn list_text(bytes: Seq<u8>) -> Seq<char>
    decreases bytes.len(),
{
    if bytes.len() == 0 {
        Seq::empty()
    } else if bytes.len() == 1 {
        byte_text(bytes[0])
    } else {
        list_text(bytes.drop_last()) + seq![',', ' '] + byte_text(bytes.last())
    }
}

/// Writes one digit.
pub(crate) fn digit(n: u8) -> (r: &'static str)
    requires
        n < 16,
    ensures
        r@ == seq![digit_char(n)],
{
    proof {
        reveal_strlit("0");
        reveal_strlit("1");
        reveal_strlit("2");
        reveal_strlit("3");
        reveal_strlit("4");
        reveal_strlit("5");
        reveal_strlit("6");
        reveal_strlit("7");
        reveal_strlit("8");
        reveal_strlit("9");
        reveal_strlit("A");
        reveal_strlit("B");
        reveal_strlit("C");
        reveal_strlit("D");
        reveal_strlit("E");
        reveal_strlit("F");
    }
    let r: &'static str = match n {
        0 => "0",
        1 => "1",
        2 => "2",
        3 => "3",
        4 => "4",
        5 => "5",
        6 => "6",
        7 => "7",
        8 => "8",
        9 => "9",
        10 => "A",
        11 => "B",
        12 => "C",
        13 => "D",
        14 => "E",
        _ => "F",
    };
    assert(r@ =~= seq![digit_char(n)]);
    r
}

/// Appends the two digits of a byte.
pub(crate) fn push_byte(s: &mut String, b: u8)
    ensures
        final(s)@ == old(s)@ + byte_text(b),
{
    s.append(digit(b / 16));
    s.append(digit(b % 16));
    assert(s@ =~= old(s)@ + byte_text(b));
}

/// Bytes as one quoted number: `"A000"`.
pub open spec fn quoted_hex(bytes: Seq<u8>) -> Seq<char> {
    seq!['"'] + hex_text(bytes) + seq!['"']
}

/// A byte as a literal: `0x3F`.
pub open spec fn literal_hex(b: u8) -> Seq<char> {
    seq!['0', 'x'] + byte_text(b)
}

/// A letter in lower case; a digit stays as it is.
pub open spec fn lower(c: char) -> char {
    match c {
        'A' => 'a',
        'B' => 'b',
        'C' => 'c',
        'D' => 'd',
        'E' => 'e',
        'F' => 'f',
        _ => c,
    }
}

/// A byte as a literal in lower case: `0x3f`.
pub open spec fn lower_literal_hex(b: u8) -> Seq<char> {
    seq!['0', 'x', lower(digit_char(b / 16)), lower(digit_char(b % 16))]
}

/// Writes bytes as one quoted number.
pub fn hex_quoted(bytes: &[u8]) -> (r: String)
    ensures
        r@ == quoted_hex(bytes@),
{
    proof {
        reveal_strlit("\"");
        assert("\""@ =~= seq!['"']);
    }
    let mut s: String = String::new();
    s.append("\"");
    let mut i: usize = 0;
    assert(bytes@.take(0) =~= Seq::empty());
    while i < bytes.len()
        invariant
            i <= bytes@.len(),
            s@ =~= seq!['"'] + hex_text(bytes@.take(i as int)),
        decreases bytes@.len() - i,
    {
        push_byte(&mut s, bytes[i]);
        assert(bytes@.take(i + 1).drop_last() =~= bytes@.take(i as int));
        i = i + 1;
    }
    assert(bytes@.take(i as int) =~= bytes@);
    s.append("\"");
    s
}

/// Writes a byte as a literal.
pub fn hex_literal(b: u8) -> (r: String)
    ensures
        r@ == literal_hex(b),
{
    proof {
        reveal_strlit("0x");
        assert("0x"@ =~= seq!['0', 'x']);
    }
    let mut s: String = String::new();
    s.append("0x");
    assert(s@ =~= seq!['0', 'x']);
    push_byte(&mut s, b);
    s
}

/// Two bytes as a literal: `0x9000`.
pub open spec fn word_literal_hex(w: u16) -> Seq<char> {
    seq!['0', 'x'] + byte_text((w / 256) as u8) + byte_text((w % 256) as u8)
}

/// Writes two bytes as a literal.
pub fn hex_word(w: u16) -> (r: String)
    ensures
        r@ == word_literal_hex(w),
{
    let mut s: String = hex_literal((w / 256) as u8);
    push_byte(&mut s, (w % 256) as u8);
    s
}

fn lower_digit(n: u8) -> (r: &'static str)
    requires
        n < 16,
    ensures
        r@ == seq![lower(digit_char(n))],
{
    proof {
        reveal_strlit("a");
        reveal_strlit("b");
        reveal_strlit("c");
        reveal_strlit("d");
        reveal_strlit("e");
        reveal_strlit("f");
    }
    let r: &'static str = match n {
        10 => "a",
        11 => "b",
        12 => "c",
        13 => "d",
        14 => "e",
        15 => "f",
        _ => digit(n),
    };
    assert(r@ =~= seq![lower(digit_char(n))]);
    r
}

/// Writes a byte as a literal in lower case.
pub fn lower_hex_literal(b: u8) -> (r: String)
    ensures
        r@ == lower_literal_hex(b),
{
    proof {
        reveal_strlit("0x");
    }
    let mut s: String = "0x".to_owned();
    s.append(lower_digit(b / 16));
    s.append(lower_digit(b % 16));
    assert(s@ =~= lower_literal_hex(b));
    s
}

/// Bytes that are shown in hexadecimal, and compared as bytes.
#[derive(Debug, Clone, Copy)]
pub struct HexSlice<'a>(pub &'a [u8]);

impl<'a> HexSlice<'a> {
    /// The bytes as a list: `[6F, 61, 84]`.
    pub fn to_text(&self) -> (r: String)
        ensures
            r@ == seq!['['] + list_text(self.0@) + seq![']'],
    {
        proof {
            reveal_strlit("[");
            reveal_strlit("]");
            reveal_strlit(", ");
            assert("["@ =~= seq!['[']);
            assert("]"@ =~= seq![']']);
            assert(", "@ =~= seq![',', ' ']);
        }
        let bytes: &[u8] = self.0;
        let mut s: String = String::new();
        s.append("[");
        let mut i: usize = 0;
        assert(bytes@.take(0) =~= Seq::empty());
        while i < bytes.len()
            invariant
                i <= bytes@.len(),
                ", "@ == seq![',', ' '],
                s@ =~= seq!['['] + list_text(bytes@.take(i as int)),
            decreases bytes@.len() - i,
        {
            if i > 0 {
                s.append(", ");
            }
            push_byte(&mut s, bytes[i]);
            assert(bytes@.take(i + 1).drop_last() =~= bytes@.take(i as int));
            i = i + 1;
        }
        assert(bytes@.take(i as int) =~= bytes@);
        s.append("]");
        s
    }
}

impl<'a> PartialEq for HexSlice<'a> {
    fn eq(&self, other: &HexSlice<'a>) -> (r: bool) {
        same_bytes(self.0, other.0)
    }
}

impl<'a> PartialEqSpecImpl for HexSlice<'a> {
    open spec fn obeys_eq_spec() -> bool {
        true
    }

    open spec fn eq_spec(&self, other: &HexSlice<'a>) -> bool {
        self.0@ == other.0@
    }
}

} // verus!
