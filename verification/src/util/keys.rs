//! Keys that are written in hexadecimal.
use vstd::prelude::*;
use vstd::string::StringSliceAdditionalSpecFns;

verus! {

/// The three keys of a set (ENC, MAC and DEK), each in the front of its buffer,
/// and their common length.
pub type KeySet = ([[u8; 32]; 3], usize);

/// The value of a hexadecimal digit.
pub open spec fn digit_value(c: u8) -> Option<u8> {
    if 0x30 <= c <= 0x39 {
        Some((c - 0x30) as u8)
    } else if 0x61 <= c <= 0x66 {
        Some((c - 0x61 + 10) as u8)
    } else if 0x41 <= c <= 0x46 {
        Some((c - 0x41 + 10) as u8)
    } else {
        None
    }
}

/// All bytes are hexadecimal digits.
pub open spec fn all_digits(text: Seq<u8>) -> bool {
    forall|i: int| 0 <= i < text.len() ==> (#[trigger] digit_value(text[i])) is Some
}

/// What digits stand for, two to a byte.
pub open spec fn decoded(text: Seq<u8>) -> Seq<u8> {
    Seq::new(
        text.len() / 2,
        |i: int|
            (digit_value(text[2 * i])->Some_0 * 16 + digit_value(text[2 * i + 1])->Some_0) as u8,
    )
}

/// The length of the text of a key.
pub open spec fn key_text_len(n: nat) -> bool {
    n == 32 || n == 48 || n == 64
}

/// Why a text is no key.
pub open spec fn key_text_error(text: Seq<u8>) -> Option<Seq<char>> {
    if !key_text_len(text.len()) {
        Some("expected 32, 48, or 64 hex characters (16/24/32-byte key)"@)
    } else if !all_digits(text) {
        Some("non-hex character in key"@)
    } else {
        None
    }
}

/// `key` holds what the text stands for, and zeros behind it.
pub open spec fn key_in(key: [u8; 32], len: usize, text: Seq<u8>) -> bool {
    &&& len == text.len() / 2
    &&& len <= 32
    &&& key@.take(len as int) == decoded(text)
    &&& forall|i: int| len <= i < 32 ==> key@[i] == 0
}

fn hex_nibble(c: u8) -> (r: Option<u8>)
    ensures
        r == digit_value(c),
        r matches Some(v) ==> v < 16,
{
    if 0x30 <= c && c <= 0x39 {
        Some(c - 0x30)
    } else if 0x61 <= c && c <= 0x66 {
        Some(c - 0x61 + 10)
    } else if 0x41 <= c && c <= 0x46 {
        Some(c - 0x41 + 10)
    } else {
        None
    }
}

/// Reads a key of 16, 24 or 32 bytes.
pub fn parse_key_hex(s: &str) -> (r: Result<([u8; 32], usize), &'static str>)
    ensures
        match key_text_error(s.spec_bytes()) {
            Some(text) => r matches Err(e) && e@ == text,
            None => r matches Ok(k) && key_in(k.0, k.1, s.spec_bytes()),
        },
{
    let b: &[u8] = s.as_bytes();
    let len: usize = match b.len() {
        32 => 16,
        48 => 24,
        64 => 32,
        _ => return Err("expected 32, 48, or 64 hex characters (16/24/32-byte key)"),
    };
    let mut out: [u8; 32] = [0u8; 32];
    let mut i: usize = 0;
    while i < len
        invariant
            i <= len <= 32,
            b@.len() == 2 * len,
            b@ == s.spec_bytes(),
            key_text_len(b@.len()),
            forall|k: int| 0 <= k < 2 * i ==> (#[trigger] digit_value(b@[k])) is Some,
            out@.take(i as int) =~= decoded(b@).take(i as int),
            forall|k: int| i <= k < 32 ==> out@[k] == 0,
        decreases len - i,
    {
        let hi: u8 = match hex_nibble(b[2 * i]) {
            Some(v) => v,
            None => {
                assert(!all_digits(b@));
                return Err("non-hex character in key");
            },
        };
        let lo: u8 = match hex_nibble(b[2 * i + 1]) {
            Some(v) => v,
            None => {
                assert(!all_digits(b@));
                return Err("non-hex character in key");
            },
        };
        out[i] = hi * 16 + lo;
        i = i + 1;
    }
    assert(all_digits(b@));
    assert(decoded(b@).take(len as int) =~= decoded(b@));
    Ok((out, len))
}

/// Why three texts are no key set: the first that is no key, or different lengths.
pub open spec fn key_set_error(enc: Seq<u8>, mac: Seq<u8>, dek: Seq<u8>) -> Option<Seq<char>> {
    if key_text_error(enc) is Some {
        key_text_error(enc)
    } else if key_text_error(mac) is Some {
        key_text_error(mac)
    } else if key_text_error(dek) is Some {
        key_text_error(dek)
    } else if enc.len() != mac.len() || enc.len() != dek.len() {
        Some("ENC/MAC/DEK keys must all be the same length"@)
    } else {
        None
    }
}

/// `set` holds the keys that the texts stand for.
pub open spec fn key_set_in(set: KeySet, enc: Seq<u8>, mac: Seq<u8>, dek: Seq<u8>) -> bool {
    &&& key_in(set.0[0], set.1, enc)
    &&& key_in(set.0[1], set.1, mac)
    &&& key_in(set.0[2], set.1, dek)
}

/// Reads a key set.
pub fn decode_key_set(enc: &str, mac: &str, dek: &str) -> (r: Result<KeySet, &'static str>)
    ensures
        match key_set_error(enc.spec_bytes(), mac.spec_bytes(), dek.spec_bytes()) {
            Some(text) => r matches Err(e) && e@ == text,
            None => r matches Ok(set) && key_set_in(
                set,
                enc.spec_bytes(),
                mac.spec_bytes(),
                dek.spec_bytes(),
            ),
        },
{
    let (ke, le) = parse_key_hex(enc)?;
    let (km, lm) = parse_key_hex(mac)?;
    let (kd, ld) = parse_key_hex(dek)?;
    if le != lm || le != ld {
        return Err("ENC/MAC/DEK keys must all be the same length");
    }
    Ok(([ke, km, kd], le))
}

/// A setting that is there and not empty.
pub open spec fn setting(value: Option<&str>) -> Option<Seq<char>> {
    match value {
        Some(s) => if s@.len() > 0 {
            Some(s@)
        } else {
            None
        },
        None => None,
    }
}

fn nonempty<'a>(value: Option<&'a str>) -> (r: Option<&'a str>)
    ensures
        match r {
            Some(s) => value == Some(s) && s@.len() > 0,
            None => setting(value) is None,
        },
        r is Some <==> setting(value) is Some,
{
    match value {
        Some(s) => if s.is_empty() {
            None
        } else {
            Some(s)
        },
        None => None,
    }
}

/// One more name in a list.
pub open spec fn listed(list: Seq<char>, name: Seq<char>) -> Seq<char> {
    if list.len() == 0 {
        name
    } else {
        list + ", "@ + name
    }
}

/// The names of the settings that are missing.
pub open spec fn missing_names(base: Seq<char>, enc: bool, mac: bool, dek: bool) -> Seq<char> {
    let none = Seq::<char>::empty();
    let one = if enc {
        none
    } else {
        listed(none, base + "_ENC"@)
    };
    let two = if mac {
        one
    } else {
        listed(one, base + "_MAC"@)
    };
    if dek {
        two
    } else {
        listed(two, base + "_DEK"@)
    }
}

/// What is said where some settings are missing.
pub open spec fn missing_text(base: Seq<char>, missing: Seq<char>) -> Seq<char> {
    "all three of "@ + base + "_ENC/_MAC/_DEK are required; not set: "@ + missing
}

fn list_name(list: &mut String, base: &str, suffix: &str)
    ensures
        final(list)@ == listed(old(list)@, base@ + suffix@),
{
    if !list.as_str().is_empty() {
        list.append(", ");
    }
    let ghost before = list@;
    list.append(base);
    list.append(suffix);
    assert(list@ =~= before + (base@ + suffix@));
    assert(Seq::<char>::empty() + (base@ + suffix@) =~= base@ + suffix@);
    proof {
        if old(list)@.len() == 0 {
            assert(before =~= Seq::empty());
        }
    }
}

/// The key set that the settings `<base>_ENC`, `<base>_MAC` and `<base>_DEK` give:
/// nothing where none of them is set, an error where some are missing or they are
/// no key set. An empty setting counts as missing, and no key has a default.
pub fn required_role_key_set(
    base: &str,
    enc: Option<&str>,
    mac: Option<&str>,
    dek: Option<&str>,
) -> (r: Option<Result<KeySet, String>>)
    ensures
        if setting(enc) is None && setting(mac) is None && setting(dek) is None {
            r is None
        } else if setting(enc) is Some && setting(mac) is Some && setting(dek) is Some {
            let e = enc->Some_0.spec_bytes();
            let m = mac->Some_0.spec_bytes();
            let d = dek->Some_0.spec_bytes();
            match key_set_error(e, m, d) {
                Some(text) => r matches Some(Err(msg)) && msg@ == text,
                None => r matches Some(Ok(set)) && key_set_in(set, e, m, d),
            }
        } else {
            r matches Some(Err(msg)) && msg@ == missing_text(
                base@,
                missing_names(
                    base@,
                    setting(enc) is Some,
                    setting(mac) is Some,
                    setting(dek) is Some,
                ),
            )
        },
{
    let e: Option<&str> = nonempty(enc);
    let m: Option<&str> = nonempty(mac);
    let d: Option<&str> = nonempty(dek);
    if let (Some(enc), Some(mac), Some(dek)) = (e, m, d) {
        return match decode_key_set(enc, mac, dek) {
            Ok(set) => Some(Ok(set)),
            Err(msg) => Some(Err(msg.to_owned())),
        };
    }
    if e.is_none() && m.is_none() && d.is_none() {
        return None;
    }
    let mut missing: String = String::new();
    assert(missing@ =~= Seq::empty());
    if e.is_none() {
        list_name(&mut missing, base, "_ENC");
    }
    if m.is_none() {
        list_name(&mut missing, base, "_MAC");
    }
    if d.is_none() {
        list_name(&mut missing, base, "_DEK");
    }
    let mut msg: String = String::new();
    msg.append("all three of ");
    msg.append(base);
    msg.append("_ENC/_MAC/_DEK are required; not set: ");
    msg.append(missing.as_str());
    assert(msg@ =~= missing_text(base@, missing@));
    Some(Err(msg))
}

} // verus!
