//! Keys and privileges as text.
use scll::util::hex::{hex_literal, hex_quoted};
use scll::util::{decode_key_set, parse_key_hex, required_role_key_set, HexSlice, Privileges};

#[test]
fn parse_key_hex_decodes_16_byte_default_gp_key() {
    // GlobalPlatform default static test key (GPCS v2.3.1 §11 examples).
    let (k, len) = parse_key_hex("404142434445464748494A4B4C4D4E4F").unwrap();
    assert_eq!(len, 16);
    assert_eq!(
        &k[..len],
        &[
            0x40, 0x41, 0x42, 0x43, 0x44, 0x45, 0x46, 0x47, 0x48, 0x49, 0x4A, 0x4B, 0x4C, 0x4D,
            0x4E, 0x4F
        ]
    );
}

#[test]
fn parse_key_hex_decodes_24_and_32_byte_keys() {
    let (k24, l24) = parse_key_hex(&"AB".repeat(24)).unwrap();
    assert_eq!(l24, 24);
    assert!(k24[..24].iter().all(|&b| b == 0xAB));
    assert_eq!(&k24[24..], &[0u8; 8]); // tail stays zero

    let (k32, l32) = parse_key_hex(&"CD".repeat(32)).unwrap();
    assert_eq!(l32, 32);
    assert!(k32.iter().all(|&b| b == 0xCD));
}

#[test]
fn parse_key_hex_is_case_insensitive() {
    assert_eq!(
        parse_key_hex("404142434445464748494a4b4c4d4e4f").unwrap(),
        parse_key_hex("404142434445464748494A4B4C4D4E4F").unwrap()
    );
}

#[test]
fn parse_key_hex_rejects_bad_length() {
    assert!(parse_key_hex("").is_err());
    assert!(parse_key_hex("40").is_err());
    assert!(parse_key_hex(&"AB".repeat(20)).is_err()); // 40 hex / 20 bytes
    assert!(parse_key_hex(&"AB".repeat(28)).is_err()); // 56 hex / 28 bytes
    assert!(parse_key_hex(&"AB".repeat(33)).is_err()); // 66 hex / 33 bytes
}

#[test]
fn parse_key_hex_rejects_non_hex() {
    // 32 chars, but contains a non-hex digit.
    assert!(parse_key_hex("Z04142434445464748494A4B4C4D4E4F").is_err());
}

#[test]
fn decode_key_set_accepts_distinct_keys() {
    let enc = "00".repeat(16);
    let mac = "11".repeat(16);
    let dek = "22".repeat(16);
    let ([ke, km, kd], len) = decode_key_set(&enc, &mac, &dek).unwrap();
    assert_eq!(len, 16);
    assert!(ke[..16].iter().all(|&b| b == 0x00));
    assert!(km[..16].iter().all(|&b| b == 0x11));
    assert!(kd[..16].iter().all(|&b| b == 0x22));
}

#[test]
fn decode_key_set_rejects_mixed_lengths() {
    // ENC 16 bytes, MAC 24 bytes → rejected.
    assert!(decode_key_set(&"AB".repeat(16), &"AB".repeat(24), &"AB".repeat(16)).is_err());
}

#[test]
fn key_errors_are_told_apart() {
    assert_eq!(
        parse_key_hex("1"),
        Err("expected 32, 48, or 64 hex characters (16/24/32-byte key)")
    );
    assert_eq!(
        parse_key_hex(&"0g".repeat(16)),
        Err("non-hex character in key")
    );
    // Sixteen letters of two bytes each: the length fits, the digits do not.
    assert_eq!(
        parse_key_hex(&"\u{e9}".repeat(16)),
        Err("non-hex character in key")
    );
    assert_eq!(
        decode_key_set(&"AB".repeat(16), &"AB".repeat(24), &"AB".repeat(16)),
        Err("ENC/MAC/DEK keys must all be the same length")
    );
}

#[test]
fn role_key_sets_need_all_three_settings() {
    let key = "40".repeat(16);
    assert!(required_role_key_set("K", None, None, None).is_none());
    assert!(required_role_key_set("K", Some(""), None, Some("")).is_none());
    let (keys, len) = required_role_key_set("K", Some(&key), Some(&key), Some(&key))
        .unwrap()
        .unwrap();
    assert_eq!(len, 16);
    assert_eq!(&keys[2][..16], &[0x40; 16]);
    assert_eq!(
        required_role_key_set("K", Some(&key), None, Some("")).unwrap(),
        Err("all three of K_ENC/_MAC/_DEK are required; not set: K_MAC, K_DEK".to_string())
    );
    assert_eq!(
        required_role_key_set("K", None, Some(&key), Some(&key)).unwrap(),
        Err("all three of K_ENC/_MAC/_DEK are required; not set: K_ENC".to_string())
    );
    assert_eq!(
        required_role_key_set("K", Some("xx"), Some(&key), Some(&key)).unwrap(),
        Err("expected 32, 48, or 64 hex characters (16/24/32-byte key)".to_string())
    );
}

fn show(p: [u8; 3]) -> String {
    Privileges(&p).to_text()
}

#[test]
fn empty_privileges_render_none() {
    assert_eq!(show([0x00, 0x00, 0x00]).as_str(), "<none>");
}

#[test]
fn security_domain_bit_is_byte0_high() {
    assert!(Privileges(&[0x80, 0x00, 0x00]).is_security_domain());
    assert!(!Privileges(&[0x40, 0x00, 0x00]).is_security_domain());
    assert_eq!(show([0x80, 0x00, 0x00]).as_str(), "SecurityDomain");
}

#[test]
fn names_span_all_three_bytes_high_bit_first() {
    // byte1 b8 (SD) + byte2 b7 (AuthMgmt) + byte3 b8 (ReceiptGen).
    assert_eq!(
        show([0x80, 0x40, 0x80]).as_str(),
        "SecurityDomain, AuthorizedManagement, ReceiptGeneration"
    );
}

#[test]
fn rfu_bits_in_byte3_are_ignored() {
    // Only RFU bits set in byte 3 ⇒ nothing nameable from it.
    assert_eq!(show([0x00, 0x00, 0x0F]).as_str(), "<none>");
}

#[test]
fn debug_shows_hex_then_names() {
    let d = Privileges(&[0x84, 0x40, 0x00]).to_debug_text();
    assert!(d.starts_with("Privileges(84 40 00: "));
    assert!(d.contains("SecurityDomain"));
    assert!(d.contains("CardReset"));
    assert!(d.contains("AuthorizedManagement"));
}

#[test]
fn every_privilege_has_its_name() {
    assert_eq!(
        show([0xFF, 0xFF, 0xFF]),
        "SecurityDomain, DAPVerification, DelegatedManagement, CardLock, CardTerminate, \
         CardReset, CVMManagement, MandatedDAPVerification, TrustedPath, AuthorizedManagement, \
         TokenVerification, GlobalDelete, GlobalLock, GlobalRegistry, FinalApplication, \
         GlobalService, ReceiptGeneration, CipheredLoadFileDataBlock, ContactlessActivation, \
         ContactlessSelfActivation"
    );
}

#[test]
fn bytes_in_hexadecimal() {
    assert_eq!(HexSlice(&[0x6F, 0x61, 0x84]).to_text(), "[6F, 61, 84]");
    assert_eq!(HexSlice(&[]).to_text(), "[]");
    assert_eq!(HexSlice(&[1, 2]), HexSlice(&[1, 2]));
    assert_ne!(HexSlice(&[1, 2]), HexSlice(&[1, 2, 3]));
    assert_eq!(hex_quoted(&[0xA0, 0x00]), "\"A000\"");
    assert_eq!(hex_quoted(&[]), "\"\"");
    assert_eq!(hex_literal(0x30), "0x30");
    assert_eq!(hex_literal(0xFE), "0xFE");
}
