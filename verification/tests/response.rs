//! Card answers.
use scll::limits::MAX_MODULES_PER_ELF;
use scll::model::{KeyTemplateFormat, KeyType, ScpVariant};
use scll::report::CardLifeCycle;
use scll::response::{
    parse_card_capabilities, parse_card_recognition, parse_key_information, parse_status_e3,
    parse_status_registry, CardRecognition,
};
use scll::tlv::TlvError;

// ===== Card Recognition Data '66' =====================================

/// Real CRD dump (`JavaCard` OS forum / 0x9000 blog): SCP02, i=0x55.
const CRD_SCP02_55: &[u8] = &[
    0x66, 0x4C, 0x73, 0x4A, 0x06, 0x07, 0x2A, 0x86, 0x48, 0x86, 0xFC, 0x6B, 0x01, 0x60, 0x0C,
    0x06, 0x0A, 0x2A, 0x86, 0x48, 0x86, 0xFC, 0x6B, 0x02, 0x02, 0x01, 0x01, 0x63, 0x09, 0x06,
    0x07, 0x2A, 0x86, 0x48, 0x86, 0xFC, 0x6B, 0x03, 0x64, 0x0B, 0x06, 0x09, 0x2A, 0x86, 0x48,
    0x86, 0xFC, 0x6B, 0x04, 0x02, 0x55, 0x65, 0x0B, 0x06, 0x09, 0x2B, 0x85, 0x10, 0x86, 0x48,
    0x64, 0x02, 0x01, 0x03, 0x66, 0x0C, 0x06, 0x0A, 0x2B, 0x06, 0x01, 0x04, 0x01, 0x2A, 0x02,
    0x6E, 0x01, 0x02,
];

#[test]
fn crd_decodes_scp02_i55() {
    let crd = parse_card_recognition(CRD_SCP02_55).unwrap();
    assert_eq!(crd.scp.len(), 1);
    assert_eq!(crd.scp[0], ScpVariant::Scp02 { i_param: 0x55 });
}

#[test]
fn crd_decodes_scp03_i70() {
    // Minimal '66'→'73'→'64'→'06' with OID tail 03 70 (SCP03, i=0x70).
    let crd = [
        0x66, 0x0E, 0x73, 0x0C, 0x64, 0x0A, 0x06, 0x08, 0x2A, 0x86, 0x48, 0x86, 0xFC, 0x6B,
        0x03, 0x70,
    ];
    let r = parse_card_recognition(&crd).unwrap();
    assert_eq!(r.scp[0], ScpVariant::Scp03 { i_param: 0x70 });
}

#[test]
fn crd_multiple_variants_preserve_order() {
    // '73' with two '64' entries: SCP02/55 then SCP03/70.
    let crd = [
        0x73, 0x10, 0x64, 0x06, 0x06, 0x04, 0x00, 0x00, 0x02, 0x55, 0x64, 0x06, 0x06, 0x04,
        0x00, 0x00, 0x03, 0x70,
    ];
    let r = parse_card_recognition(&crd).unwrap();
    assert_eq!(r.scp.len(), 2);
    assert_eq!(r.scp[0], ScpVariant::Scp02 { i_param: 0x55 });
    assert_eq!(r.scp[1], ScpVariant::Scp03 { i_param: 0x70 });
}

#[test]
fn crd_drops_scp01() {
    // '64' OID tail 01 05 ⇒ SCP01, which is unrepresentable and dropped.
    let crd = [0x73, 0x08, 0x64, 0x06, 0x06, 0x04, 0x00, 0x00, 0x01, 0x05];
    assert!(parse_card_recognition(&crd).unwrap().scp.is_empty());
}

#[test]
fn crd_empty_input_is_empty_not_error() {
    assert!(parse_card_recognition(&[]).unwrap().scp.is_empty());
}

#[test]
fn crd_no_template_is_empty_not_error() {
    // Well-formed TLV but no '73' body (just a stray '5C' tag list).
    assert!(parse_card_recognition(&[0x5C, 0x01, 0x9F])
        .unwrap()
        .scp
        .is_empty());
}

#[test]
fn crd_entry_without_oid_is_skipped() {
    // '64' present but holds a non-'06' child ⇒ skipped, no error.
    let crd = [0x73, 0x06, 0x64, 0x04, 0x80, 0x02, 0x00, 0x00];
    assert!(parse_card_recognition(&crd).unwrap().scp.is_empty());
}

#[test]
fn crd_oid_shorter_than_two_octets_is_skipped() {
    let crd = [0x73, 0x05, 0x64, 0x03, 0x06, 0x01, 0x2A];
    assert!(parse_card_recognition(&crd).unwrap().scp.is_empty());
}

#[test]
fn crd_malformed_tlv_is_rejected() {
    // '66' claims 5 bytes but only 1 follows.
    assert_eq!(
        parse_card_recognition(&[0x66, 0x05, 0x00]),
        Err(TlvError::Truncated)
    );
}

// ===== Key Information Template '00E0' ================================

#[test]
fn key_info_basic_single_keyset_three_kids() {
    // 'E0' { 'C0'{01 01 88 10} 'C0'{02 01 88 10} 'C0'{03 01 88 10} } —
    // KIDs 1/2/3 at KVN 1, AES, 16-byte (matches a modern SCP03 keyset;
    // 'C0' carries KID first, then KVN — GPCS v2.3.1 Table 11-70).
    let data = [
        0xE0, 0x12, 0xC0, 0x04, 0x01, 0x01, 0x88, 0x10, 0xC0, 0x04, 0x02, 0x01, 0x88, 0x10,
        0xC0, 0x04, 0x03, 0x01, 0x88, 0x10,
    ];
    let info = parse_key_information(&data).unwrap();
    assert!(matches!(info.format, KeyTemplateFormat::Basic));
    assert_eq!(info.keysets.len(), 1);
    assert_eq!(info.keysets[0].kvn, 1);
    assert_eq!(info.keysets[0].keys.len(), 3);
    assert_eq!(info.keysets[0].keys[0].kid, 1);
    assert!(matches!(info.keysets[0].keys[0].key_type, KeyType::Aes));
    assert_eq!(info.keysets[0].keys[2].key_length, 0x10);
}

#[test]
fn key_info_groups_by_kvn() {
    let data = [
        0xE0, 0x0E, 0xC0, 0x04, 0x01, 0x01, 0x80, 0x10, 0xC0, 0x04, 0x01, 0x02, 0x88, 0x10,
        0xC0, 0x00, // a degenerate empty 'C0' — skipped, no panic
    ];
    let info = parse_key_information(&data).unwrap();
    assert_eq!(info.keysets.len(), 2);
    assert!(matches!(info.keysets[0].keys[0].key_type, KeyType::Des));
    assert!(matches!(info.keysets[1].keys[0].key_type, KeyType::Aes));
}

#[test]
fn key_info_multi_component_pairs() {
    // One 'C0' with KID|KVN then two (type,len) pairs (e.g. RSA pub+priv).
    let data = [0xE0, 0x08, 0xC0, 0x06, 0x10, 0x01, 0xA1, 0x80, 0xA2, 0x80];
    let info = parse_key_information(&data).unwrap();
    assert_eq!(info.keysets[0].keys.len(), 2);
    assert!(matches!(
        info.keysets[0].keys[0].key_type,
        KeyType::RsaPublic
    ));
    assert!(matches!(
        info.keysets[0].keys[1].key_type,
        KeyType::RsaPrivateCrt
    ));
}

#[test]
fn key_info_extended_format_sets_flag() {
    // 'C0' { KID KVN 'B9' Lb .. } ⇒ Extended flag; sub-template not decoded.
    let data = [0xE0, 0x06, 0xC0, 0x04, 0x01, 0x01, 0xB9, 0x00];
    let info = parse_key_information(&data).unwrap();
    assert!(matches!(info.format, KeyTemplateFormat::Extended));
    assert_eq!(info.keysets[0].keys[0].kid, 1);
    assert!(matches!(
        info.keysets[0].keys[0].key_type,
        KeyType::Other(0xB9)
    ));
}

#[test]
fn key_info_unknown_type_is_other() {
    // 'C0' { KID=05 KVN=09 KeyType=0x42 (unknown) KeyLength=08 }.
    let data = [0xE0, 0x06, 0xC0, 0x04, 0x05, 0x09, 0x42, 0x08];
    let info = parse_key_information(&data).unwrap();
    assert!(matches!(
        info.keysets[0].keys[0].key_type,
        KeyType::Other(0x42)
    ));
}

#[test]
fn key_info_bare_c0_without_e0_wrapper() {
    let data = [0xC0, 0x04, 0x01, 0x01, 0x88, 0x10];
    let info = parse_key_information(&data).unwrap();
    assert_eq!(info.keysets[0].keys[0].kid, 1);
}

#[test]
fn key_info_empty_is_empty_not_error() {
    let info = parse_key_information(&[]).unwrap();
    assert!(info.keysets.is_empty());
}

#[test]
fn key_info_malformed_tlv_is_rejected() {
    assert!(matches!(
        parse_key_information(&[0xE0, 0x05, 0xC0]),
        Err(TlvError::Truncated)
    ));
}

// ===== Card Capability Information '67' ===============================

#[test]
fn cci_decodes_channels_and_privileges_and_keeps_raw() {
    // '67' { 'A0'{04} 'A3'{80 00 00} } — 4 channels, ISD privilege byte.
    let data = [0x67, 0x08, 0xA0, 0x01, 0x04, 0xA3, 0x03, 0x80, 0x00, 0x00];
    let caps = parse_card_capabilities(&data).unwrap();
    assert_eq!(caps.max_logical_channels, 4);
    assert_eq!(caps.privileges_supported.len(), 3);
    assert_eq!(caps.privileges_supported[0], 0x80);
    assert_eq!(caps.cci_raw.len(), data.len());
    // Undecoded by design (see fn docs): empty / None, raw retained.
    assert!(caps.ciphers_supported.is_empty());
    assert!(caps.memory_total_bytes.is_none());
}

#[test]
fn cci_defaults_to_one_channel_when_a0_absent() {
    let data = [0x67, 0x05, 0xA3, 0x03, 0x80, 0x00, 0x00];
    let caps = parse_card_capabilities(&data).unwrap();
    assert_eq!(caps.max_logical_channels, 1);
}

#[test]
fn cci_empty_a0_keeps_default_channel() {
    let data = [0x67, 0x02, 0xA0, 0x00];
    let caps = parse_card_capabilities(&data).unwrap();
    assert_eq!(caps.max_logical_channels, 1);
}

#[test]
fn cci_bare_subtags_without_67_wrapper() {
    let data = [0xA0, 0x01, 0x02];
    let caps = parse_card_capabilities(&data).unwrap();
    assert_eq!(caps.max_logical_channels, 2);
}

#[test]
fn cci_empty_is_defaults_not_error() {
    let caps = parse_card_capabilities(&[]).unwrap();
    assert_eq!(caps.max_logical_channels, 1);
    assert!(caps.cci_raw.is_empty());
}

#[test]
fn cci_malformed_tlv_is_rejected() {
    assert!(matches!(
        parse_card_capabilities(&[0x67, 0x05, 0xA0]),
        Err(TlvError::Truncated)
    ));
}

// ===== GET STATUS GP Registry entry 'E3' =============================

#[test]
fn e3_decodes_each_known_lifecycle_byte() {
    for (raw, expect) in [
        (0x01u8, CardLifeCycle::OpReady),
        (0x07, CardLifeCycle::Initialized),
        (0x0F, CardLifeCycle::Secured),
        (0x7F, CardLifeCycle::CardLocked),
        (0xFF, CardLifeCycle::Terminated),
    ] {
        // 'E3' { '4F'{A0000000030000} '9F70'{raw} }
        let data = [
            0xE3, 0x0D, 0x4F, 0x07, 0xA0, 0x00, 0x00, 0x00, 0x03, 0x00, 0x00, 0x9F, 0x70, 0x01,
            raw,
        ];
        assert_eq!(parse_status_e3(&data).unwrap(), Some(expect));
    }
}

#[test]
fn e3_unknown_byte_maps_to_unknown() {
    let data = [0xE3, 0x04, 0x9F, 0x70, 0x01, 0x42];
    assert_eq!(
        parse_status_e3(&data).unwrap(),
        Some(CardLifeCycle::Unknown(0x42))
    );
}

#[test]
fn e3_absent_template_is_none() {
    // Well-formed TLV, but no 'E3'.
    assert_eq!(parse_status_e3(&[0x4F, 0x00]).unwrap(), None);
}

#[test]
fn e3_without_9f70_is_none() {
    let data = [0xE3, 0x02, 0x4F, 0x00];
    assert_eq!(parse_status_e3(&data).unwrap(), None);
}

#[test]
fn e3_empty_9f70_is_none() {
    let data = [0xE3, 0x03, 0x9F, 0x70, 0x00];
    assert_eq!(parse_status_e3(&data).unwrap(), None);
}

#[test]
fn e3_empty_input_is_none() {
    assert_eq!(parse_status_e3(&[]).unwrap(), None);
}

#[test]
fn e3_malformed_tlv_is_rejected() {
    assert_eq!(
        parse_status_e3(&[0xE3, 0x05, 0x9F]),
        Err(TlvError::Truncated)
    );
}

// ===== GET STATUS full registry ==============================

/// `E3{ 4F<aid> 9F70<lc> C5<priv> }` — the App/SD entry shape.
fn e3_app(aid: &[u8], lc: u8, privs: &[u8]) -> Vec<u8> {
    let mut inner = Vec::new();
    inner.push(0x4F);
    inner.push(u8::try_from(aid.len()).unwrap());
    inner.extend_from_slice(aid);
    inner.extend_from_slice(&[0x9F, 0x70, 0x01, lc]);
    inner.push(0xC5);
    inner.push(u8::try_from(privs.len()).unwrap());
    inner.extend_from_slice(privs);
    let mut v = Vec::new();
    v.push(0xE3);
    v.push(u8::try_from(inner.len()).unwrap());
    v.extend_from_slice(&inner);
    v
}

#[test]
fn registry_decodes_isd_with_full_3byte_privileges() {
    // ISD entry: AID A0000000030000, OP_READY (0x01), all-3-byte privs.
    let aid = [0xA0, 0x00, 0x00, 0x00, 0x03, 0x00, 0x00];
    let e = e3_app(&aid, 0x01, &[0x9E, 0xFE, 0x80]);
    let r = parse_status_registry(&e).unwrap();
    assert_eq!(r.len(), 1);
    assert_eq!(r[0].aid, &aid);
    assert_eq!(r[0].life_cycle, 0x01);
    assert_eq!(r[0].privileges, [0x9E, 0xFE, 0x80]);
    assert!(r[0].modules.is_empty());
}

#[test]
fn registry_pads_one_byte_privileges_into_byte_zero() {
    // Legacy 1-byte C5 = 0x80 ⇒ [0x80, 0, 0]; SD bit survives in byte 0.
    let e = e3_app(&[0xA0, 0x00, 0x00, 0x00, 0x18], 0x07, &[0x80]);
    let r = parse_status_registry(&e).unwrap();
    assert_eq!(r[0].privileges, [0x80, 0x00, 0x00]);
}

#[test]
fn registry_decodes_two_entries_in_one_page() {
    let a = e3_app(&[0xA0, 0x00, 0x00, 0x00, 0x11], 0x07, &[0x00, 0x00, 0x00]);
    let b = e3_app(&[0xA0, 0x00, 0x00, 0x00, 0x22], 0x0F, &[0x80, 0x00, 0x00]);
    let mut page = a;
    page.extend_from_slice(&b);
    let r = parse_status_registry(&page).unwrap();
    assert_eq!(r.len(), 2);
    assert_eq!(r[0].life_cycle, 0x07);
    assert_eq!(r[1].privileges, [0x80, 0x00, 0x00]);
}

#[test]
fn registry_decodes_elf_with_associated_sd_and_modules() {
    // E3{ 4F<elf> 9F70<lc> CC<sd> 84<mod1> 84<mod2> } — P1=0x10 scope.
    let elf = [0xA0, 0x00, 0x00, 0x00, 0x62, 0x01];
    let sd = [0xA0, 0x00, 0x00, 0x00, 0x03, 0x00, 0x00];
    let m1 = [0xA0, 0x00, 0x00, 0x00, 0x62, 0x01, 0x01];
    let m2 = [0xA0, 0x00, 0x00, 0x00, 0x62, 0x01, 0x02];
    let mut inner = Vec::new();
    inner.push(0x4F);
    inner.push(u8::try_from(elf.len()).unwrap());
    inner.extend_from_slice(&elf);
    inner.extend_from_slice(&[0x9F, 0x70, 0x01, 0x01]);
    inner.push(0xCC);
    inner.push(u8::try_from(sd.len()).unwrap());
    inner.extend_from_slice(&sd);
    for m in [&m1[..], &m2[..]] {
        inner.push(0x84);
        inner.push(u8::try_from(m.len()).unwrap());
        inner.extend_from_slice(m);
    }
    let mut e = Vec::new();
    e.push(0xE3);
    e.push(u8::try_from(inner.len()).unwrap());
    e.extend_from_slice(&inner);

    let r = parse_status_registry(&e).unwrap();
    assert_eq!(r[0].aid, &elf);
    assert_eq!(r[0].associated_sd_aid, Some(&sd[..]));
    assert_eq!(r[0].modules.len(), 2);
    assert_eq!(r[0].modules[0], &m1);
    assert_eq!(r[0].modules[1], &m2);
}

#[test]
fn registry_decodes_application_elf_aid_tag_c4() {
    // E3{ 4F<inst> 9F70 C5<priv> C4<elf> } — application's load file AID.
    let inst = [0xA0, 0x00, 0x00, 0x00, 0x62, 0x03, 0x01, 0x0C];
    let elf = [0xA0, 0x00, 0x00, 0x00, 0x62, 0x03];
    let mut inner = Vec::new();
    inner.push(0x4F);
    inner.push(u8::try_from(inst.len()).unwrap());
    inner.extend_from_slice(&inst);
    inner.extend_from_slice(&[0x9F, 0x70, 0x01, 0x07]);
    inner.extend_from_slice(&[0xC5, 0x01, 0x00]);
    inner.push(0xC4);
    inner.push(u8::try_from(elf.len()).unwrap());
    inner.extend_from_slice(&elf);
    let mut e = Vec::new();
    e.push(0xE3);
    e.push(u8::try_from(inner.len()).unwrap());
    e.extend_from_slice(&inner);

    let r = parse_status_registry(&e).unwrap();
    assert_eq!(r[0].elf_aid, Some(&elf[..]));
    assert_eq!(r[0].associated_sd_aid, None);
}

#[test]
fn registry_missing_4f_yields_empty_aid_not_error() {
    // E3{ 9F70 01 0F } — no '4F'; workflow treats an empty AID as skip.
    let e = [0xE3, 0x04, 0x9F, 0x70, 0x01, 0x0F];
    let r = parse_status_registry(&e).unwrap();
    assert_eq!(r.len(), 1);
    assert!(r[0].aid.is_empty());
    assert_eq!(r[0].life_cycle, 0x0F);
}

#[test]
fn registry_empty_page_is_empty_not_error() {
    assert!(parse_status_registry(&[]).unwrap().is_empty());
}

#[test]
fn registry_no_e3_is_empty_not_error() {
    // Well-formed TLV but no 'E3' (e.g. a card returning just '4F 00').
    assert!(parse_status_registry(&[0x4F, 0x00]).unwrap().is_empty());
}

#[test]
fn registry_malformed_tlv_is_rejected() {
    assert_eq!(
        parse_status_registry(&[0xE3, 0x05, 0x4F]),
        Err(TlvError::Truncated)
    );
}

#[test]
fn registry_truncates_excess_modules_without_panic() {
    // One ELF entry with MAX_MODULES_PER_ELF + 4 module tags ⇒ capped.
    let elf = [0xA0, 0x00, 0x00, 0x00, 0x62, 0x09];
    let mut inner = Vec::new();
    inner.push(0x4F);
    inner.push(u8::try_from(elf.len()).unwrap());
    inner.extend_from_slice(&elf);
    inner.extend_from_slice(&[0x9F, 0x70, 0x01, 0x01]);
    for i in 0..(MAX_MODULES_PER_ELF + 4) {
        // 5-byte module AID, distinct last byte.
        inner.extend_from_slice(&[
            0x84,
            0x05,
            0xA0,
            0x00,
            0x00,
            0x01,
            u8::try_from(i).unwrap(),
        ]);
    }
    let mut e = Vec::new();
    e.push(0xE3);
    // Body exceeds 127 B (≥17 module TLVs), so use long-form length 81 LL.
    if inner.len() < 0x80 {
        e.push(u8::try_from(inner.len()).unwrap());
    } else {
        e.push(0x81);
        e.push(u8::try_from(inner.len()).unwrap());
    }
    e.extend_from_slice(&inner);
    let r = parse_status_registry(&e).unwrap();
    assert_eq!(r[0].modules.len(), MAX_MODULES_PER_ELF);
}

#[test]
fn a_registry_is_cut_at_its_limits() {
    let mut page = Vec::new();
    for i in 0..70u8 {
        page.extend_from_slice(&[0xE3, 0x07, 0x4F, 0x05, 0xA0, 0x00, 0x00, 0x00, i]);
    }
    let r = parse_status_registry(&page).unwrap();
    assert_eq!(r.len(), scll::limits::MAX_REGISTRY_ENTRIES);
    assert_eq!(r[63].aid, &[0xA0, 0x00, 0x00, 0x00, 63]);

    let mut inner = vec![0x4F, 0x05, 0xA0, 0x00, 0x00, 0x00, 0x01];
    for _ in 0..100 {
        inner.extend_from_slice(&[0x9F, 0x70, 0x00]);
    }
    let n = inner.len();
    let mut page = vec![0xE3, 0x82, (n / 256) as u8, (n % 256) as u8];
    page.extend_from_slice(&inner);
    let r = parse_status_registry(&page).unwrap();
    assert_eq!(r.len(), 1);
    assert!(r[0].modules.is_empty());
    assert!(!r[0].more_modules);
}

#[test]
fn by_default_no_channel_is_advertised() {
    assert!(CardRecognition::default().scp.is_empty());
}
