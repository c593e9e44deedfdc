//! BER-TLV.
use scll::limits::MAX_TLVS;
use scll::tlv::{encode, parse, Tlv, TlvError};
use scll::util::HexSlice;

// ---- Concrete GP-shaped vectors --------------------------------------

#[test]
fn parses_two_single_byte_tag_objects() {
    // '4F' (AID) len 2 + '9F70' (life-cycle) len 1.
    let input = [0x4F, 0x02, 0xA0, 0x00, 0x9F, 0x70, 0x01, 0x07];
    let tlvs = parse(&input).unwrap();
    assert_eq!(tlvs.len(), 2);
    assert_eq!(tlvs[0].tag, 0x4F);
    assert_eq!(HexSlice(tlvs[0].value), HexSlice(&[0xA0, 0x00]));
    assert_eq!(tlvs[1].tag, 0x9F70);
    assert_eq!(HexSlice(tlvs[1].value), HexSlice(&[0x07]));
}

#[test]
fn parses_long_form_length() {
    // '66' with a 130-byte value via long form 0x81 0x82.
    let mut input = heapless::Vec::<u8, 300>::new();
    input.extend_from_slice(&[0x66, 0x81, 0x82]).unwrap();
    input.extend_from_slice(&[0xAB; 0x82]).unwrap();
    let tlvs = parse(&input).unwrap();
    assert_eq!(tlvs.len(), 1);
    assert_eq!(tlvs[0].tag, 0x66);
    assert_eq!(tlvs[0].value.len(), 0x82);
}

#[test]
fn empty_input_yields_no_objects() {
    assert_eq!(parse(&[]).unwrap().len(), 0);
}

// ---- Malformed input is rejected, never panics -----------------------

#[test]
fn truncated_value_is_rejected() {
    assert_eq!(parse(&[0x4F, 0x05, 0x01, 0x02]), Err(TlvError::Truncated));
}

#[test]
fn truncated_tag_is_rejected() {
    // Leading octet signals continuation, but the buffer ends.
    assert_eq!(parse(&[0x9F]), Err(TlvError::Truncated));
}

#[test]
fn missing_length_octet_is_rejected() {
    assert_eq!(parse(&[0x4F]), Err(TlvError::Truncated));
}

#[test]
fn indefinite_length_is_rejected() {
    assert_eq!(parse(&[0x4F, 0x80, 0x01]), Err(TlvError::BadLength));
}

#[test]
fn oversized_tag_is_rejected() {
    // Five continuation octets cannot fit a u32 tag.
    assert_eq!(
        parse(&[0x1F, 0x81, 0x81, 0x81, 0x81, 0x01]),
        Err(TlvError::BadLength)
    );
}

#[test]
fn long_form_length_octets_exceeding_usize_rejected() {
    // 0x80 | 9 ⇒ nine length octets, wider than any usize.
    assert_eq!(parse(&[0x4F, 0x89]), Err(TlvError::BadLength));
}

#[test]
fn too_many_objects_is_rejected() {
    // (MAX_TLVS + 1) minimal one-byte-value objects.
    let mut input = heapless::Vec::<u8, { (MAX_TLVS + 1) * 3 }>::new();
    for _ in 0..=MAX_TLVS {
        input.extend_from_slice(&[0x80, 0x01, 0x00]).unwrap();
    }
    assert_eq!(parse(&input), Err(TlvError::TooMany));
}

// ---- encode ----------------------------------------------------------

#[test]
fn encode_emits_canonical_long_form() {
    let value = [0xAB; 0x82];
    let items = [Tlv {
        tag: 0x66,
        value: &value,
    }];
    let mut out = [0u8; 300];
    let n = encode(&items, &mut out).unwrap();
    assert_eq!(HexSlice(&out[..3]), HexSlice(&[0x66, 0x81, 0x82]));
    assert_eq!(n, 3 + 0x82);
}

#[test]
fn encode_overflow_is_reported_not_panicked() {
    let items = [Tlv {
        tag: 0x4F,
        value: &[1, 2, 3, 4],
    }];
    let mut out = [0u8; 3]; // too small for tag+len+4
    assert_eq!(encode(&items, &mut out), Err(TlvError::Overflow));
}

// ---- For many inputs -------------------------------------------------

/// A fixed sequence of numbers that looks random.
fn numbers(seed: u32, n: usize) -> Vec<u32> {
    let mut x = seed;
    (0..n)
        .map(|_| {
            x = x.wrapping_mul(1_664_525).wrapping_add(1_013_904_223);
            x >> 8
        })
        .collect()
}

fn items(seed: u32) -> Vec<(u32, Vec<u8>)> {
    let r = numbers(seed, 3);
    let count = r[0] as usize % (MAX_TLVS + 1);
    numbers(r[1], count)
        .into_iter()
        .map(|n| {
            let tag = if n % 3 == 0 {
                0x9F00 | (n >> 4) % 0x80
            } else {
                let t = (n >> 4) % 0x100;
                if t & 0x1F == 0x1F {
                    t & 0xE0
                } else {
                    t
                }
            };
            let len = (n >> 12) as usize % 65;
            let value = numbers(n, len).into_iter().map(|b| b as u8).collect();
            (tag, value)
        })
        .collect()
}

#[test]
fn parse_after_encode_is_identity() {
    for seed in 0..400 {
        let items = items(seed);
        let tlvs: Vec<Tlv> = items.iter().map(|(t, v)| Tlv { tag: *t, value: v }).collect();
        let mut out = [0u8; 64 * 70];
        let n = encode(&tlvs, &mut out).unwrap();
        let parsed = parse(&out[..n]).unwrap();
        assert_eq!(parsed, tlvs);
    }
}

#[test]
fn parse_arbitrary_never_panics() {
    for seed in 0..2000 {
        let r = numbers(seed, 1)[0] as usize % 512;
        let bytes: Vec<u8> = numbers(seed, r).into_iter().map(|b| b as u8).collect();
        let _ = parse(&bytes);
    }
}

#[test]
fn encode_that_does_not_fit_leaves_the_rest_alone() {
    let items = [
        Tlv { tag: 0x4F, value: &[1, 2] },
        Tlv { tag: 0x9F70, value: &[3] },
    ];
    let mut out = [0xEEu8; 5];
    assert_eq!(encode(&items, &mut out), Err(TlvError::Overflow));
    assert_eq!(&out[..4], &[0x4F, 0x02, 1, 2]);
}
