//! Texts: digits, numbers, keys, and the names of privileges.
use vstd::prelude::*;

use crate::reader;
use crate::util::hex::{
    byte_text, digit_char, hex_text, list_text, literal_hex, lower, lower_literal_hex, quoted_hex,
    word_literal_hex,
};
use crate::util::keys::{
    all_digits, decoded, digit_value, key_in, key_set_error, key_set_in, key_text_error,
    missing_names, missing_text, KeySet,
};
use crate::util::privileges::{names_to, privilege_name, privilege_set, privileges_text};
use crate::util::text::{comma_separated, decimal, field_text, list_of, record_text, tagged_text};

verus! {

// ---- Digits ----------------------------------------------------------------

/// The digits `0` to `9` stand for 0 to 9, and `A` to `F` for 10 to 15; in lower case `a`
/// to `f`.
pub proof fn law_digits(n: u8)
    requires
        n < 16,
    ensures
        n < 10 ==> digit_char(n) as int == 0x30 + n,
        n >= 10 ==> digit_char(n) as int == 0x41 + n - 10,
        n < 10 ==> lower(digit_char(n)) as int == 0x30 + n,
        n >= 10 ==> lower(digit_char(n)) as int == 0x61 + n - 10,
{
}

/// The octets of a text whose characters have one octet each.
pub open spec fn plain(text: Seq<char>) -> Seq<u8> {
    text.map_values(|c: char| c as u8)
}

/// Both kinds of a digit are read as its value, and nothing else is a digit.
pub proof fn law_digits_are_read(n: u8, c: u8)
    requires
        n < 16,
    ensures
        digit_value(digit_char(n) as u8) == Some(n),
        digit_value(lower(digit_char(n)) as u8) == Some(n),
        digit_value(c) is Some <==> 0x30 <= c <= 0x39 || 0x41 <= c <= 0x46 || 0x61 <= c <= 0x66,
{
}

/// Bytes that are written in hexadecimal, two digits for each and the higher one first, are
/// read again as they were.
pub proof fn law_bytes_are_read_again(bytes: Seq<u8>)
    ensures
        hex_text(bytes).len() == 2 * bytes.len(),
        all_digits(plain(hex_text(bytes))),
        decoded(plain(hex_text(bytes))) == bytes,
    decreases bytes.len(),
{
    let text = plain(hex_text(bytes));
    if bytes.len() > 0 {
        let init = bytes.drop_last();
        let b = bytes.last();
        let before = plain(hex_text(init));
        law_bytes_are_read_again(init);
        assert(text =~= before + plain(byte_text(b)));
        law_digits_are_read(b / 16, 0);
        law_digits_are_read(b % 16, 0);
        assert(text[2 * init.len() as int] == digit_char(b / 16) as u8);
        assert(text[2 * init.len() as int + 1] == digit_char(b % 16) as u8);
        assert forall|i: int| 0 <= i < text.len() implies (#[trigger] digit_value(
            text[i],
        )) is Some by {
            if i < before.len() {
                assert(text[i] == before[i]);
            }
        }
        assert forall|i: int| 0 <= i < bytes.len() implies decoded(text)[i] == bytes[i] by {
            if i < init.len() {
                assert(text[2 * i] == before[2 * i]);
                assert(text[2 * i + 1] == before[2 * i + 1]);
                assert(decoded(before)[i] == init[i]);
            }
        }
    }
    assert(decoded(text) =~= bytes);
}

/// A literal is `0x` and digits that are read as the value; a word has its higher byte
/// first.
pub proof fn law_literals(b: u8, w: u16)
    ensures
        literal_hex(b).len() == 4,
        literal_hex(b)[0] == '0' && literal_hex(b)[1] == 'x',
        decoded(plain(literal_hex(b).skip(2))) == seq![b],
        lower_literal_hex(b).len() == 4,
        lower_literal_hex(b)[0] == '0' && lower_literal_hex(b)[1] == 'x',
        decoded(plain(lower_literal_hex(b).skip(2))) == seq![b],
        word_literal_hex(w).len() == 6,
        word_literal_hex(w)[0] == '0' && word_literal_hex(w)[1] == 'x',
        ({
            let d = decoded(plain(word_literal_hex(w).skip(2)));
            d.len() == 2 && 0x100 * d[0] + d[1] == w
        }),
{
    law_digits_are_read(b / 16, 0);
    law_digits_are_read(b % 16, 0);
    assert(decoded(plain(literal_hex(b).skip(2))) =~= seq![b]);
    assert(decoded(plain(lower_literal_hex(b).skip(2))) =~= seq![b]);
    let hi = (w / 256) as u8;
    let lo = (w % 256) as u8;
    law_digits_are_read(hi / 16, 0);
    law_digits_are_read(hi % 16, 0);
    law_digits_are_read(lo / 16, 0);
    law_digits_are_read(lo % 16, 0);
    assert(decoded(plain(word_literal_hex(w).skip(2))) =~= seq![hi, lo]);
}

/// Bytes as a quoted number stand between quotation marks.
pub proof fn law_quoted_bytes(bytes: Seq<u8>)
    ensures
        ({
            let t = quoted_hex(bytes);
            &&& t.len() == 2 * bytes.len() + 2
            &&& t[0] == '"' && t.last() == '"'
            &&& decoded(plain(t.subrange(1, t.len() - 1))) == bytes
        }),
{
    law_bytes_are_read_again(bytes);
    let t = quoted_hex(bytes);
    assert(t.subrange(1, t.len() - 1) =~= hex_text(bytes));
}

/// Bytes as a list: four characters for each, two digits and `, `, but for the last, which
/// has the digits only.
pub proof fn law_listed_bytes(bytes: Seq<u8>, i: int)
    requires
        0 <= i < bytes.len(),
    ensures
        ({
            let t = list_text(bytes);
            &&& t.len() == 4 * bytes.len() - 2
            &&& decoded(plain(t.subrange(4 * i, 4 * i + 2))) == seq![bytes[i]]
            &&& i + 1 < bytes.len() ==> t[4 * i + 2] == ',' && t[4 * i + 3] == ' '
        }),
    decreases bytes.len(),
{
    let t = list_text(bytes);
    let b = bytes[i];
    law_digits_are_read(b / 16, 0);
    law_digits_are_read(b % 16, 0);
    assert(decoded(plain(byte_text(b))) =~= seq![b]);
    if bytes.len() == 1 {
        assert(t.subrange(0, 2) =~= byte_text(b));
    } else {
        let init = bytes.drop_last();
        law_listed_bytes(init, 0);
        if i < init.len() {
            law_listed_bytes(init, i);
            assert(t.subrange(4 * i, 4 * i + 2) =~= list_text(init).subrange(4 * i, 4 * i + 2));
        } else {
            assert(t.subrange(4 * i, 4 * i + 2) =~= byte_text(b));
        }
    }
}

// ---- Numbers ---------------------------------------------------------------

/// A number is written in decimal digits without a zero in front, and is read again as it
/// was.
pub proof fn law_numbers_are_read_again(n: nat)
    ensures
        decimal(n).len() > 0,
        reader::all_decimal(plain(decimal(n))),
        reader::decimal(plain(decimal(n))) == n,
        n > 0 ==> decimal(n)[0] != '0',
    decreases n,
{
    let d = decimal(n);
    if n < 10 {
        law_digits(n as u8);
        assert(plain(d).drop_last() =~= Seq::empty());
        assert(reader::decimal(plain(d).drop_last()) == 0);
    } else {
        law_numbers_are_read_again(n / 10);
        law_digits((n % 10) as u8);
        assert(plain(d).drop_last() =~= plain(decimal(n / 10)));
        assert forall|i: int| 0 <= i < plain(d).len() implies 0x30 <= #[trigger] plain(
            d,
        )[i] <= 0x39 by {
            if i < d.len() - 1 {
                assert(plain(d)[i] == plain(decimal(n / 10))[i]);
            }
        }
    }
}

// ---- Lists and records -----------------------------------------------------

/// Two lists of texts, one behind the other, are written one behind the other with a comma
/// and a space in between.
pub proof fn law_lists_are_joined(a: Seq<Seq<char>>, b: Seq<Seq<char>>)
    requires
        a.len() > 0,
        b.len() > 0,
    ensures
        comma_separated(a + b) == comma_separated(a) + seq![',', ' '] + comma_separated(b),
        comma_separated(seq![a[0]]) == a[0],
        comma_separated(Seq::empty()).len() == 0,
    decreases b.len(),
{
    reveal_strlit(", ");
    assert(", "@ =~= seq![',', ' ']);
    assert((a + b).drop_last() =~= a + b.drop_last());
    if b.len() == 1 {
        assert(a + b.drop_last() =~= a);
    } else {
        law_lists_are_joined(a, b.drop_last());
    }
    assert(comma_separated(a + b) =~= comma_separated(a) + seq![',', ' '] + comma_separated(b));
}

/// `[..]` round a list, `name { .. }` round the fields of a record, `name: value` for a
/// field, `name(value)` for a value that carries another.
pub proof fn law_brackets(name: Seq<char>, value: Seq<char>, parts: Seq<Seq<char>>)
    ensures
        list_of(parts) == seq!['['] + comma_separated(parts) + seq![']'],
        record_text(name, parts) == name + seq![' ', '{', ' '] + comma_separated(parts) + seq![
            ' ',
            '}',
        ],
        field_text(name, value) == name + seq![':', ' '] + value,
        tagged_text(name, value) == name + seq!['('] + value + seq![')'],
{
    reveal_strlit("[");
    reveal_strlit("]");
    reveal_strlit(" { ");
    reveal_strlit(" }");
    reveal_strlit(": ");
    reveal_strlit("(");
    reveal_strlit(")");
    assert("["@ =~= seq!['[']);
    assert("]"@ =~= seq![']']);
    assert(" { "@ =~= seq![' ', '{', ' ']);
    assert(" }"@ =~= seq![' ', '}']);
    assert(": "@ =~= seq![':', ' ']);
    assert("("@ =~= seq!['(']);
    assert(")"@ =~= seq![')']);
}

// ---- Keys ------------------------------------------------------------------

/// A key of 16, 24 or 32 bytes that is written in hexadecimal is read as it was, with zeros
/// behind it; bytes of any other number are no key.
pub proof fn law_keys_are_read_again(bytes: Seq<u8>, key: [u8; 32], len: usize)
    ensures
        key_text_error(plain(hex_text(bytes))) is None <==> bytes.len() == 16 || bytes.len() == 24
            || bytes.len() == 32,
        key_in(key, len, plain(hex_text(bytes))) ==> {
            &&& len == bytes.len()
            &&& key@.take(len as int) == bytes
            &&& forall|i: int| len <= i < 32 ==> key@[i] == 0
        },
{
    law_bytes_are_read_again(bytes);
}

/// A text with anything but digits, or of another length, is no key.
pub proof fn law_no_key_from_other_texts(text: Seq<u8>, i: int)
    requires
        0 <= i < text.len(),
    ensures
        !(0x30 <= text[i] <= 0x39 || 0x41 <= text[i] <= 0x46 || 0x61 <= text[i] <= 0x66)
            ==> key_text_error(text) is Some,
        text.len() != 32 && text.len() != 48 && text.len() != 64 ==> key_text_error(text) is Some,
{
    law_digits_are_read(0, text[i]);
    assert(all_digits(text) ==> digit_value(text[i]) is Some);
}

/// The three keys of a set keep their roles: ENC, MAC, DEK.
pub proof fn law_key_sets_keep_their_roles(
    set: KeySet,
    enc: Seq<u8>,
    mac: Seq<u8>,
    dek: Seq<u8>,
)
    requires
        key_set_in(set, plain(hex_text(enc)), plain(hex_text(mac)), plain(hex_text(dek))),
    ensures
        set.1 == enc.len(),
        set.0[0]@.take(set.1 as int) == enc,
        set.0[1]@.take(set.1 as int) == mac,
        set.0[2]@.take(set.1 as int) == dek,
{
    law_keys_are_read_again(enc, set.0[0], set.1);
    law_keys_are_read_again(mac, set.0[1], set.1);
    law_keys_are_read_again(dek, set.0[2], set.1);
}

/// Three keys are a set exactly where they have one length, of 16, 24 or 32 bytes.
pub proof fn law_which_keys_are_a_set(enc: Seq<u8>, mac: Seq<u8>, dek: Seq<u8>)
    ensures
        key_set_error(plain(hex_text(enc)), plain(hex_text(mac)), plain(hex_text(dek))) is None
            <==> enc.len() == mac.len() == dek.len() && (enc.len() == 16 || enc.len() == 24
            || enc.len() == 32),
{
    law_bytes_are_read_again(enc);
    law_bytes_are_read_again(mac);
    law_bytes_are_read_again(dek);
}

/// The settings that are missing are named, and no other, in the order ENC, MAC, DEK.
pub proof fn law_missing_settings(base: Seq<char>)
    requires
        base.len() > 0,
    ensures
        missing_names(base, false, true, true) == base + "_ENC"@,
        missing_names(base, true, false, true) == base + "_MAC"@,
        missing_names(base, true, true, false) == base + "_DEK"@,
        missing_names(base, false, false, true) == base + "_ENC"@ + ", "@ + (base + "_MAC"@),
        missing_names(base, false, true, false) == base + "_ENC"@ + ", "@ + (base + "_DEK"@),
        missing_names(base, true, false, false) == base + "_MAC"@ + ", "@ + (base + "_DEK"@),
        forall|missing: Seq<char>|
            #![trigger missing_text(base, missing)]
            missing_text(base, missing) == "all three of "@ + base
                + "_ENC/_MAC/_DEK are required; not set: "@ + missing,
{
}

// ---- Privileges ------------------------------------------------------------

/// Bit `i` of the privileges is counted from the highest bit of the first byte.
pub proof fn law_privilege_bits(p: Seq<u8>, i: int)
    requires
        0 <= i < 24,
    ensures
        i % 8 == 0 ==> (privilege_set(p, i) <==> p[i / 8] & 0x80 != 0),
        i % 8 == 1 ==> (privilege_set(p, i) <==> p[i / 8] & 0x40 != 0),
        i % 8 == 2 ==> (privilege_set(p, i) <==> p[i / 8] & 0x20 != 0),
        i % 8 == 3 ==> (privilege_set(p, i) <==> p[i / 8] & 0x10 != 0),
        i % 8 == 4 ==> (privilege_set(p, i) <==> p[i / 8] & 0x08 != 0),
        i % 8 == 5 ==> (privilege_set(p, i) <==> p[i / 8] & 0x04 != 0),
        i % 8 == 6 ==> (privilege_set(p, i) <==> p[i / 8] & 0x02 != 0),
        i % 8 == 7 ==> (privilege_set(p, i) <==> p[i / 8] & 0x01 != 0),
{
    let b = p[i / 8];
    assert({
        &&& (b >> 7u8) % 2 == 1 <==> b & 0x80 != 0
        &&& (b >> 6u8) % 2 == 1 <==> b & 0x40 != 0
        &&& (b >> 5u8) % 2 == 1 <==> b & 0x20 != 0
        &&& (b >> 4u8) % 2 == 1 <==> b & 0x10 != 0
        &&& (b >> 3u8) % 2 == 1 <==> b & 0x08 != 0
        &&& (b >> 2u8) % 2 == 1 <==> b & 0x04 != 0
        &&& (b >> 1u8) % 2 == 1 <==> b & 0x02 != 0
        &&& (b >> 0u8) % 2 == 1 <==> b & 0x01 != 0
    }) by (bit_vector);
}

proof fn lemma_named(p: Seq<u8>, i: int, k: int)
    requires
        0 <= i < k,
        privilege_set(p, i),
        privilege_name(i) is Some,
    ensures
        names_to(p, k).contains(privilege_name(i)->Some_0),
    decreases k,
{
    let name = privilege_name(i)->Some_0;
    if i == k - 1 {
        assert(names_to(p, k).last() == name);
    } else {
        lemma_named(p, i, k - 1);
        let before = names_to(p, k - 1);
        let j = choose|j: int| 0 <= j < before.len() && before[j] == name;
        assert(names_to(p, k)[j] == name);
    }
}

/// Every privilege that is set is named, by the name that its bit has.
pub proof fn law_privileges_are_named(p: Seq<u8>)
    ensures
        p[0] & 0x80 != 0 ==> names_to(p, 24).contains("SecurityDomain"@),
        p[0] & 0x40 != 0 ==> names_to(p, 24).contains("DAPVerification"@),
        p[0] & 0x20 != 0 ==> names_to(p, 24).contains("DelegatedManagement"@),
        p[0] & 0x10 != 0 ==> names_to(p, 24).contains("CardLock"@),
        p[0] & 0x08 != 0 ==> names_to(p, 24).contains("CardTerminate"@),
        p[0] & 0x04 != 0 ==> names_to(p, 24).contains("CardReset"@),
        p[0] & 0x02 != 0 ==> names_to(p, 24).contains("CVMManagement"@),
        p[0] & 0x01 != 0 ==> names_to(p, 24).contains("MandatedDAPVerification"@),
        p[1] & 0x80 != 0 ==> names_to(p, 24).contains("TrustedPath"@),
        p[1] & 0x40 != 0 ==> names_to(p, 24).contains("AuthorizedManagement"@),
        p[1] & 0x20 != 0 ==> names_to(p, 24).contains("TokenVerification"@),
        p[1] & 0x10 != 0 ==> names_to(p, 24).contains("GlobalDelete"@),
        p[1] & 0x08 != 0 ==> names_to(p, 24).contains("GlobalLock"@),
        p[1] & 0x04 != 0 ==> names_to(p, 24).contains("GlobalRegistry"@),
        p[1] & 0x02 != 0 ==> names_to(p, 24).contains("FinalApplication"@),
        p[1] & 0x01 != 0 ==> names_to(p, 24).contains("GlobalService"@),
        p[2] & 0x80 != 0 ==> names_to(p, 24).contains("ReceiptGeneration"@),
        p[2] & 0x40 != 0 ==> names_to(p, 24).contains("CipheredLoadFileDataBlock"@),
        p[2] & 0x20 != 0 ==> names_to(p, 24).contains("ContactlessActivation"@),
        p[2] & 0x10 != 0 ==> names_to(p, 24).contains("ContactlessSelfActivation"@),
{
    assert forall|i: int| 0 <= i < 20 && privilege_set(p, i) implies names_to(p, 24).contains(
        (#[trigger] privilege_name(i))->Some_0,
    ) by {
        lemma_named(p, i, 24);
    }
    law_privilege_bits(p, 0);
    law_privilege_bits(p, 1);
    law_privilege_bits(p, 2);
    law_privilege_bits(p, 3);
    law_privilege_bits(p, 4);
    law_privilege_bits(p, 5);
    law_privilege_bits(p, 6);
    law_privilege_bits(p, 7);
    law_privilege_bits(p, 8);
    law_privilege_bits(p, 9);
    law_privilege_bits(p, 10);
    law_privilege_bits(p, 11);
    law_privilege_bits(p, 12);
    law_privilege_bits(p, 13);
    law_privilege_bits(p, 14);
    law_privilege_bits(p, 15);
    law_privilege_bits(p, 16);
    law_privilege_bits(p, 17);
    law_privilege_bits(p, 18);
    law_privilege_bits(p, 19);
    assert(privilege_name(0) is Some && privilege_name(1) is Some && privilege_name(2) is Some);
    assert(privilege_name(3) is Some && privilege_name(4) is Some && privilege_name(5) is Some);
    assert(privilege_name(6) is Some && privilege_name(7) is Some && privilege_name(8) is Some);
    assert(privilege_name(9) is Some && privilege_name(10) is Some && privilege_name(11) is Some);
    assert(privilege_name(12) is Some && privilege_name(13) is Some && privilege_name(14) is Some);
    assert(privilege_name(15) is Some && privilege_name(16) is Some && privilege_name(17) is Some);
    assert(privilege_name(18) is Some && privilege_name(19) is Some);
}

/// How many of the first `k` privileges are set.
pub open spec fn how_many_set(p: Seq<u8>, k: int) -> nat
    decreases k,
{
    if k <= 0 {
        0
    } else if privilege_set(p, k - 1) {
        how_many_set(p, k - 1) + 1
    } else {
        how_many_set(p, k - 1)
    }
}

/// There are as many names as privileges that are set; the last four bits have none. The
/// names stand in the order of the bits: those of the first bits are the beginning.
pub proof fn law_no_other_names(p: Seq<u8>, k: int)
    requires
        0 <= k <= 24,
    ensures
        k <= 20 ==> names_to(p, k).len() == how_many_set(p, k),
        k >= 20 ==> names_to(p, k).len() == how_many_set(p, 20),
        names_to(p, k).is_prefix_of(names_to(p, 24)),
    decreases 24 - k,
{
    lemma_count(p, k);
    if k < 24 {
        law_no_other_names(p, k + 1);
        assert(names_to(p, k).is_prefix_of(names_to(p, k + 1)));
    }
}

proof fn lemma_count(p: Seq<u8>, k: int)
    requires
        0 <= k <= 24,
    ensures
        k <= 20 ==> names_to(p, k).len() == how_many_set(p, k),
        k >= 20 ==> names_to(p, k).len() == how_many_set(p, 20),
    decreases k,
{
    if k > 0 {
        lemma_count(p, k - 1);
    }
}

/// The names are written with a comma and a space in between, and `<none>` where none is
/// set.
pub proof fn law_privileges_text(p: Seq<u8>)
    ensures
        how_many_set(p, 20) == 0 ==> privileges_text(p) == "<none>"@,
        how_many_set(p, 20) > 0 ==> privileges_text(p) == comma_separated(names_to(p, 24)),
{
    lemma_count(p, 24);
}

} // verus!
