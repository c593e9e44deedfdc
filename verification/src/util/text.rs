//! Values in the form in which they are logged: `Name { field: value, other: [a, b] }`.
use vstd::prelude::*;

use crate::util::hex::{digit, digit_char};

verus! {

/// Texts with a comma and a space in between.
pub open spec fn comma_separated(texts: Seq<Seq<char>>) -> Seq<char>
    decreases texts.len(),
{
    if texts.len() == 0 {
        Seq::empty()
    } else if texts.len() == 1 {
        texts[0]
    } else {
        comma_separated(texts.drop_last()) + ", "@ + texts.last()
    }
}

/// The digits of a number to the base ten.
pub open spec fn decimal(n: nat) -> Seq<char>
    decreases n,
{
    if n < 10 {
        seq![digit_char(n as u8)]
    } else {
        decimal(n / 10).push(digit_char((n % 10) as u8))
    }
}

/// A truth value.
pub open spec fn bool_text(b: bool) -> Seq<char> {
    if b {
        "true"@
    } else {
        "false"@
    }
}

/// A value that carries another: `Name(value)`.
pub open spec fn tagged_text(name: Seq<char>, value: Seq<char>) -> Seq<char> {
    name + "("@ + value + ")"@
}

/// A list.
pub open spec fn list_of(items: Seq<Seq<char>>) -> Seq<char> {
    "["@ + comma_separated(items) + "]"@
}

/// One field of a record.
pub open spec fn field_text(name: Seq<char>, value: Seq<char>) -> Seq<char> {
    name + ": "@ + value
}

/// A record with its fields.
pub open spec fn record_text(name: Seq<char>, fields: Seq<Seq<char>>) -> Seq<char> {
    name + " { "@ + comma_separated(fields) + " }"@
}

/// The characters of several texts.
pub open spec fn texts(parts: Seq<String>) -> Seq<Seq<char>> {
    parts.map_values(|part: String| part@)
}

/// A value that can be written to a log.
pub trait Logged {
    /// The value as text.
    spec fn text(&self) -> Seq<char>;

    /// Writes the value as text.
    fn to_text(&self) -> (r: String)
        ensures
            r@ == self.text(),
    ;
}

/// A text in quotation marks, with the escapes of a string literal, as `{:?}` writes it.
pub uninterp spec fn quoted_text(text: Seq<char>) -> Seq<char>;

/// `format!` with `{:?}` on a `str`: the text in quotation marks and escaped. Which
/// characters are escaped, and how, is left to std.
#[verifier::external_body]
pub(crate) fn quoted(text: &str) -> (r: String)
    ensures
        r@ == quoted_text(text@),
{
    format!("{:?}", text)
}

/// Writes a number.
pub fn decimal_of(n: u64) -> (r: String)
    ensures
        r@ == decimal(n as nat),
    decreases n,
{
    if n < 10 {
        digit(n as u8).to_owned()
    } else {
        let mut s: String = decimal_of(n / 10);
        s.append(digit((n % 10) as u8));
        assert(s@ =~= decimal(n as nat));
        s
    }
}

/// Writes a truth value.
pub fn bool_of(b: bool) -> (r: String)
    ensures
        r@ == bool_text(b),
{
    if b {
        "true".to_owned()
    } else {
        "false".to_owned()
    }
}

/// Writes a value that carries another.
pub fn tagged(name: &str, value: &str) -> (r: String)
    ensures
        r@ == tagged_text(name@, value@),
{
    let mut s: String = name.to_owned();
    s.append("(");
    s.append(value);
    s.append(")");
    s
}

/// Writes texts with a comma and a space in between.
pub fn joined(parts: &Vec<String>) -> (r: String)
    ensures
        r@ == comma_separated(texts(parts@)),
{
    let mut s: String = String::new();
    let mut i: usize = 0;
    assert(s@ =~= comma_separated(texts(parts@).take(0)));
    while i < parts.len()
        invariant
            i <= parts@.len(),
            s@ == comma_separated(texts(parts@).take(i as int)),
        decreases parts@.len() - i,
    {
        let ghost before = s@;
        if i > 0 {
            s.append(", ");
        }
        s.append(parts[i].as_str());
        proof {
            let whole = texts(parts@).take(i + 1);
            assert(whole.drop_last() =~= texts(parts@).take(i as int));
            assert(whole.last() == parts@[i as int]@);
            if i == 0 {
                assert(before =~= Seq::empty());
                assert(s@ =~= whole[0]);
            }
        }
        i = i + 1;
    }
    assert(texts(parts@).take(i as int) =~= texts(parts@));
    s
}

/// Writes a list.
pub fn list(items: &Vec<String>) -> (r: String)
    ensures
        r@ == list_of(texts(items@)),
{
    let mut s: String = "[".to_owned();
    s.append(joined(items).as_str());
    s.append("]");
    s
}

/// Writes one field of a record.
pub fn field(name: &str, value: String) -> (r: String)
    ensures
        r@ == field_text(name@, value@),
{
    let mut s: String = name.to_owned();
    s.append(": ");
    s.append(value.as_str());
    s
}

/// Writes a record with its fields.
pub fn record(name: &str, fields: &Vec<String>) -> (r: String)
    ensures
        r@ == record_text(name@, texts(fields@)),
{
    let mut s: String = name.to_owned();
    s.append(" { ");
    s.append(joined(fields).as_str());
    s.append(" }");
    s
}

impl Logged for String {
    open spec fn text(&self) -> Seq<char> {
        quoted_text(self@)
    }

    fn to_text(&self) -> (r: String) {
        quoted(self.as_str())
    }
}

impl Logged for (u8, u8, u8) {
    open spec fn text(&self) -> Seq<char> {
        "("@ + comma_separated(
            seq![decimal(self.0 as nat), decimal(self.1 as nat), decimal(self.2 as nat)],
        ) + ")"@
    }

    fn to_text(&self) -> (r: String) {
        let parts: Vec<String> = vec![
            decimal_of(self.0 as u64),
            decimal_of(self.1 as u64),
            decimal_of(self.2 as u64),
        ];
        assert(texts(parts@) =~= seq![
            decimal(self.0 as nat),
            decimal(self.1 as nat),
            decimal(self.2 as nat),
        ]);
        let mut s: String = "(".to_owned();
        s.append(joined(&parts).as_str());
        s.append(")");
        s
    }
}

impl<T: Logged> Logged for Option<T> {
    open spec fn text(&self) -> Seq<char> {
        match self {
            Some(value) => tagged_text("Some"@, value.text()),
            None => "None"@,
        }
    }

    fn to_text(&self) -> (r: String) {
        match self {
            Some(value) => tagged("Some", value.to_text().as_str()),
            None => "None".to_owned(),
        }
    }
}

impl<T: Logged> Logged for Vec<T> {
    open spec fn text(&self) -> Seq<char> {
        list_of(self@.map_values(|item: T| item.text()))
    }

    fn to_text(&self) -> (r: String) {
        let mut items: Vec<String> = Vec::new();
        let mut i: usize = 0;
        while i < self.len()
            invariant
                i <= self@.len(),
                items@.len() == i,
                forall|k: int| 0 <= k < i ==> (#[trigger] items@[k])@ == self@[k].text(),
            decreases self@.len() - i,
        {
            items.push(self[i].to_text());
            i = i + 1;
        }
        assert(texts(items@) =~= self@.map_values(|item: T| item.text()));
        list(&items)
    }
}

} // verus!
