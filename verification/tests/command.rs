//! Command APDUs.
use scll::command::delete::{delete_key, delete_object};
use scll::command::get_data::get_data;
use scll::command::get_status::{get_status, get_status_p2, P2_FIRST_TLV, P2_NEXT_TLV};
use scll::command::install::{
    install_for_install_make_selectable, install_for_load, PrivLen,
};
use scll::command::load::load_block;
use scll::command::put_key::{put_key, KeyBlock};
use scll::command::rmac_session::{begin_rmac_session, end_rmac_session};
use scll::command::select::select_by_aid;
use scll::command::set_status::set_card_status;
use scll::command::BuildError;
use scll::limits::LOAD_BLOCK_DATA;
use scll::util::HexSlice;

// ---- SELECT

#[test]
fn empty_aid_selects_default_application() {
    // GPCS §5.2.2: empty SELECT returns the default-selected application.
    let apdu = select_by_aid(&[]).unwrap();
    assert_eq!(HexSlice(&apdu), HexSlice(&[0x00, 0xA4, 0x04, 0x00, 0x00]));
}

#[test]
fn by_aid_wraps_header_lc_and_le() {
    // Canonical ISD RID shape (GPCS A000000151…), 5-byte AID.
    let aid = [0xA0, 0x00, 0x00, 0x01, 0x51];
    let apdu = select_by_aid(&aid).unwrap();
    assert_eq!(
        HexSlice(&apdu),
        HexSlice(&[0x00, 0xA4, 0x04, 0x00, 0x05, 0xA0, 0x00, 0x00, 0x01, 0x51, 0x00])
    );
}

#[test]
fn oversized_input_returns_overflow_not_panic() {
    // 256 bytes cannot fit a 1-byte short Lc → total, no panic.
    let big = [0xABu8; 256];
    assert_eq!(select_by_aid(&big), Err(BuildError::Overflow));
}

// ---- GET DATA

#[test]
fn card_recognition_data_tag_66() {
    let apdu = get_data(0x0066).unwrap();
    assert_eq!(HexSlice(&apdu), HexSlice(&[0x80, 0xCA, 0x00, 0x66, 0x00]));
}

#[test]
fn key_information_template_tag_00e0() {
    let apdu = get_data(0x00E0).unwrap();
    assert_eq!(HexSlice(&apdu), HexSlice(&[0x80, 0xCA, 0x00, 0xE0, 0x00]));
}

#[test]
fn iin_tag_0042_splits_both_p1_p2_bytes() {
    // Exercises a non-zero P1 byte so the big-endian split is checked.
    let apdu = get_data(0x0042).unwrap();
    assert_eq!(HexSlice(&apdu), HexSlice(&[0x80, 0xCA, 0x00, 0x42, 0x00]));
}

#[test]
fn high_tag_byte_is_p1() {
    let apdu = get_data(0x9F7F).unwrap();
    assert_eq!(HexSlice(&apdu), HexSlice(&[0x80, 0xCA, 0x9F, 0x7F, 0x00]));
}

// ---- GET STATUS

#[test]
fn isd_match_all_is_the_verified_4f00_form() {
    // GET STATUS of the issuer security domain: 80 F2 80 02 02 4F00 00.
    let apdu = get_status(0x80, &[]).unwrap();
    assert_eq!(
        HexSlice(&apdu),
        HexSlice(&[0x80, 0xF2, 0x80, 0x02, 0x02, 0x4F, 0x00, 0x00])
    );
}

#[test]
fn qualifier_is_tlv_tagged_under_4f() {
    // Applications/SSD scope P1=0x40 with a partial-AID search qualifier.
    let apdu = get_status(0x40, &[0xA0, 0x00]).unwrap();
    assert_eq!(
        HexSlice(&apdu),
        HexSlice(&[0x80, 0xF2, 0x40, 0x02, 0x04, 0x4F, 0x02, 0xA0, 0x00, 0x00])
    );
}

#[test]
fn oversized_qualifier_overflows_lc() {
    // '4F' + len + 255 bytes = 257-byte data field → exceeds short Lc.
    let big = [0x11u8; 255];
    assert_eq!(get_status(0x80, &big), Err(BuildError::Overflow));
}

#[test]
fn p2_next_form_paginates_with_03() {
    // The continuation: same scope, P2 = 0x03 (next + TLV).
    let apdu = get_status_p2(0x40, P2_NEXT_TLV, &[]).unwrap();
    assert_eq!(
        HexSlice(&apdu),
        HexSlice(&[0x80, 0xF2, 0x40, 0x03, 0x02, 0x4F, 0x00, 0x00])
    );
}

#[test]
fn get_status_is_the_first_tlv_form_of_p2() {
    // get_status(..) must equal get_status_p2(.., 0x02, ..) for every scope.
    for p1 in [0x80u8, 0x40, 0x20, 0x10] {
        assert_eq!(get_status(p1, &[]), get_status_p2(p1, P2_FIRST_TLV, &[]));
    }
}

// ---- SET STATUS

#[test]
fn secured_with_isd_aid_has_no_le() {
    let aid = [0xA0, 0x00, 0x00, 0x01, 0x51];
    let apdu = set_card_status(0x0F, &aid).unwrap();
    assert_eq!(
        HexSlice(&apdu),
        HexSlice(&[0x84, 0xF0, 0x80, 0x0F, 0x05, 0xA0, 0x00, 0x00, 0x01, 0x51])
    );
}

#[test]
fn empty_aid_is_case_1_header_only() {
    // Data ignored under P1=0x80, so an empty data field is spec-legal.
    let apdu = set_card_status(0x07, &[]).unwrap();
    assert_eq!(HexSlice(&apdu), HexSlice(&[0x84, 0xF0, 0x80, 0x07]));
}

#[test]
fn card_locked_byte_maps_to_p2() {
    let apdu = set_card_status(0x7F, &[]).unwrap();
    assert_eq!(HexSlice(&apdu), HexSlice(&[0x84, 0xF0, 0x80, 0x7F]));
}

#[test]
fn oversized_aid_overflows() {
    let big = [0x00u8; 256];
    assert_eq!(set_card_status(0x0F, &big), Err(BuildError::Overflow));
}

// ---- DELETE

#[test]
fn delete_object_only_uses_p2_00() {
    let aid = [0xA0, 0x00, 0x00, 0x01, 0x51];
    let apdu = delete_object(&aid, false).unwrap();
    assert_eq!(
        HexSlice(&apdu),
        HexSlice(&[
            0x84, 0xE4, 0x00, 0x00, 0x07, 0x4F, 0x05, 0xA0, 0x00, 0x00, 0x01, 0x51, 0x00
        ])
    );
}

#[test]
fn delete_object_cascade_uses_p2_80() {
    let aid = [0xA0, 0x00, 0x00, 0x01, 0x51];
    let apdu = delete_object(&aid, true).unwrap();
    assert_eq!(apdu[3], 0x80); // cascade bit
}

#[test]
fn delete_single_key_carries_both_tags_d0_then_d2() {
    let apdu = delete_key(Some(0x01), Some(0x30)).unwrap();
    assert_eq!(
        HexSlice(&apdu),
        HexSlice(&[0x84, 0xE4, 0x00, 0x00, 0x06, 0xD0, 0x01, 0x01, 0xD2, 0x01, 0x30, 0x00])
    );
}

#[test]
fn delete_all_kvns_for_a_kid_omits_d2() {
    let apdu = delete_key(Some(0x02), None).unwrap();
    assert_eq!(
        HexSlice(&apdu),
        HexSlice(&[0x84, 0xE4, 0x00, 0x00, 0x03, 0xD0, 0x01, 0x02, 0x00])
    );
}

#[test]
fn delete_all_kids_for_a_kvn_omits_d0() {
    let apdu = delete_key(None, Some(0x30)).unwrap();
    assert_eq!(
        HexSlice(&apdu),
        HexSlice(&[0x84, 0xE4, 0x00, 0x00, 0x03, 0xD2, 0x01, 0x30, 0x00])
    );
}

#[test]
fn delete_key_needs_at_least_one_scope() {
    assert_eq!(delete_key(None, None), Err(BuildError::EmptyKeyScope));
}

#[test]
fn oversized_object_aid_overflows() {
    let big = [0x00u8; 255];
    assert_eq!(delete_object(&big, false), Err(BuildError::Overflow));
}

// ---- INSTALL

#[test]
fn for_load_lays_out_all_five_fields() {
    let pkg = [0xA0, 0x00, 0x00, 0x01, 0x51];
    let sd = [0xA0, 0x00, 0x00, 0x01, 0x51];
    let hash = [0x11, 0x22, 0x33, 0x44];
    let apdu = install_for_load(&pkg, &sd, &hash).unwrap();
    assert_eq!(
        HexSlice(&apdu),
        HexSlice(&[
            0x84, 0xE6, 0x02, 0x00, 0x13, // Lc = 19
            0x05, 0xA0, 0x00, 0x00, 0x01, 0x51, // Lp | Package_AID
            0x05, 0xA0, 0x00, 0x00, 0x01, 0x51, // Ls | Target_SD_AID
            0x04, 0x11, 0x22, 0x33, 0x44, // Lh | LFDB hash
            0x00, // Lr (load params empty)
            0x00, // Lt (load token empty)
            0x00, // Le
        ])
    );
}

#[test]
fn for_load_carries_full_sha256_hash_length() {
    let aid = [0xA0, 0x00, 0x00, 0x01, 0x51];
    let hash = [0x00u8; 32];
    let apdu = install_for_load(&aid, &aid, &hash).unwrap();
    // After Lp(1)|pkg(5) Ls(1)|sd(5), the Lh byte must be 0x20 (32).
    assert_eq!(apdu[5 + 6 + 6], 0x20);
}

#[test]
fn install_make_selectable_canonical_emits_three_byte_privileges() {
    // Default / spec-canonical form: even an SD-only privilege is sent as
    // the full 3-byte field `03 80 00 00` (GPCS v2.3.1 §11.1.2). This is
    // the form the Oracle JCDK simulator requires.
    let elf = [0xA0, 0x00, 0x00, 0x01, 0x51];
    let module = [0xB0, 0x00, 0x00, 0x02, 0x52];
    let instance = [0xC0, 0x00, 0x00, 0x03, 0x53];
    let privileges = [0x80, 0x00, 0x00]; // SD only
    let params = [0xC9, 0x00]; // mandatory empty 'C9'
    let apdu = install_for_install_make_selectable(
        &elf,
        &module,
        &instance,
        privileges,
        PrivLen::Canonical,
        &params,
    )
    .unwrap();
    assert_eq!(
        HexSlice(&apdu),
        HexSlice(&[
            0x84, 0xE6, 0x0C, 0x00, 0x1A, // Lc = 26
            0x05, 0xA0, 0x00, 0x00, 0x01, 0x51, // Lf | ELF_AID
            0x05, 0xB0, 0x00, 0x00, 0x02, 0x52, // Lm | Module_AID
            0x05, 0xC0, 0x00, 0x00, 0x03, 0x53, // La | Instance_AID
            0x03, 0x80, 0x00, 0x00, // Lp | Privileges (full 3-byte form)
            0x02, 0xC9, 0x00, // Li | 'C9' 00
            0x00, // Lt (token empty)
            0x00, // Le
        ])
    );
}

#[test]
fn install_make_selectable_jcop_emits_one_byte_privileges() {
    // JCOP 4 P71 form: an SD-only privilege collapses to the 1-byte legacy
    // form `01 80` (GPCS v2.3.1 §11.1.2), which is what JCOP 4 P71 expects.
    let elf = [0xA0, 0x00, 0x00, 0x01, 0x51];
    let module = [0xB0, 0x00, 0x00, 0x02, 0x52];
    let instance = [0xC0, 0x00, 0x00, 0x03, 0x53];
    let privileges = [0x80, 0x00, 0x00]; // SD only — fits in byte 1
    let params = [0xC9, 0x00];
    let apdu = install_for_install_make_selectable(
        &elf,
        &module,
        &instance,
        privileges,
        PrivLen::Jcop1Byte,
        &params,
    )
    .unwrap();
    assert_eq!(
        HexSlice(&apdu),
        HexSlice(&[
            0x84, 0xE6, 0x0C, 0x00, 0x18, // Lc = 24
            0x05, 0xA0, 0x00, 0x00, 0x01, 0x51, // Lf | ELF_AID
            0x05, 0xB0, 0x00, 0x00, 0x02, 0x52, // Lm | Module_AID
            0x05, 0xC0, 0x00, 0x00, 0x03, 0x53, // La | Instance_AID
            0x01, 0x80, // Lp | Privileges (minimal 1-byte form)
            0x02, 0xC9, 0x00, // Li | 'C9' 00
            0x00, // Lt (token empty)
            0x00, // Le
        ])
    );
}

#[test]
fn install_make_selectable_extended_bit_forces_three_bytes_even_for_jcop() {
    // An extended (2.2+) privilege bit lives in byte 2 or 3, so the full
    // 3-byte field is required and must NOT be truncated (GPCS §11.1.2),
    // regardless of the selected PrivLen.
    let elf = [0xA0, 0x00, 0x00, 0x01, 0x51];
    let module = [0xB0, 0x00, 0x00, 0x02, 0x52];
    let instance = [0xC0, 0x00, 0x00, 0x03, 0x53];
    let privileges = [0x80, 0x00, 0x20]; // SD + an extended-byte-3 bit
    let params = [0xC9, 0x00];
    let apdu = install_for_install_make_selectable(
        &elf,
        &module,
        &instance,
        privileges,
        PrivLen::Jcop1Byte, // even the 1-byte selector must not truncate
        &params,
    )
    .unwrap();
    assert_eq!(
        HexSlice(&apdu),
        HexSlice(&[
            0x84, 0xE6, 0x0C, 0x00, 0x1A, // Lc = 26
            0x05, 0xA0, 0x00, 0x00, 0x01, 0x51, // Lf | ELF_AID
            0x05, 0xB0, 0x00, 0x00, 0x02, 0x52, // Lm | Module_AID
            0x05, 0xC0, 0x00, 0x00, 0x03, 0x53, // La | Instance_AID
            0x03, 0x80, 0x00, 0x20, // Lp | Privileges (full 3-byte form)
            0x02, 0xC9, 0x00, // Li | 'C9' 00
            0x00, // Lt
            0x00, // Le
        ])
    );
}

#[test]
fn oversized_params_overflow() {
    let aid = [0xA0, 0x00, 0x00, 0x01, 0x51];
    let params = [0x00u8; 255];
    assert_eq!(
        install_for_install_make_selectable(
            &aid,
            &aid,
            &aid,
            [0; 3],
            PrivLen::Canonical,
            &params
        ),
        Err(BuildError::Overflow)
    );
}

// ---- LOAD

#[test]
fn intermediate_block_uses_p1_00() {
    let apdu = load_block(0x00, false, &[0x01, 0x02, 0x03]).unwrap();
    assert_eq!(
        HexSlice(&apdu),
        HexSlice(&[0x84, 0xE8, 0x00, 0x00, 0x03, 0x01, 0x02, 0x03, 0x00])
    );
}

#[test]
fn last_block_sets_p1_80_and_carries_block_number() {
    let apdu = load_block(0x05, true, &[0xAA]).unwrap();
    assert_eq!(
        HexSlice(&apdu),
        HexSlice(&[0x84, 0xE8, 0x80, 0x05, 0x01, 0xAA, 0x00])
    );
}

#[test]
fn full_block_chunk_fits() {
    let chunk = [0x5Au8; LOAD_BLOCK_DATA];
    let apdu = load_block(0x10, false, &chunk).unwrap();
    // header(4) + Lc(1) + LOAD_BLOCK_DATA + Le(1).
    assert_eq!(apdu.len(), 4 + 1 + LOAD_BLOCK_DATA + 1);
    assert_eq!(apdu[4] as usize, LOAD_BLOCK_DATA); // Lc
}

#[test]
fn oversized_chunk_overflows() {
    let big = [0x00u8; 256];
    assert_eq!(load_block(0x00, false, &big), Err(BuildError::Overflow));
}

// ---- PUT KEY

fn aes_block(enc: &[u8], kcv: [u8; 3]) -> KeyBlock<'_> {
    // 128-style fixtures where the clear length equals the (un-padded)
    // ciphertext length; the 192/256 cases below set them independently.
    KeyBlock {
        key_type: 0x88,
        encrypted_key: enc,
        kcv,
        clear_key_len: u8::try_from(enc.len()).unwrap(),
    }
}

fn aes_block_clear(enc: &[u8], clear_key_len: u8, kcv: [u8; 3]) -> KeyBlock<'_> {
    KeyBlock {
        key_type: 0x88,
        encrypted_key: enc,
        kcv,
        clear_key_len,
    }
}

#[test]
fn replace_three_aes_blocks_golden() {
    // Compact (2-byte) encrypted values so the full data field is spellable.
    let enc = [0xDE, 0xAD];
    let blocks = [
        aes_block(&enc, [0x01, 0x02, 0x03]),
        aes_block(&enc, [0x01, 0x02, 0x03]),
        aes_block(&enc, [0x01, 0x02, 0x03]),
    ];
    let apdu = put_key(0x30, 0x30, &blocks).unwrap();
    // AES block: key_type ‖ block_len(=1+enc) ‖ clear_len(=enc len here) ‖ enc ‖ KCV_len ‖ KCV
    let block = [0x88, 0x03, 0x02, 0xDE, 0xAD, 0x03, 0x01, 0x02, 0x03];
    let mut expected = heapless::Vec::<u8, 64>::new();
    // 84 D8 P1=30 P2=81 Lc=0x1C(28) | new_kvn=30 | block×3 | Le=00
    expected
        .extend_from_slice(&[0x84, 0xD8, 0x30, 0x81, 0x1C, 0x30])
        .unwrap();
    for _ in 0..3 {
        expected.extend_from_slice(&block).unwrap();
    }
    expected.extend_from_slice(&[0x00]).unwrap();
    assert_eq!(HexSlice(&apdu), HexSlice(&expected));
}

#[test]
fn add_uses_p1_00_and_kvn_inside_data() {
    let enc = [0x11; 16];
    let blocks = [
        aes_block(&enc, [0xAA, 0xBB, 0xCC]),
        aes_block(&enc, [0xAA, 0xBB, 0xCC]),
        aes_block(&enc, [0xAA, 0xBB, 0xCC]),
    ];
    let apdu = put_key(0x00, 0x31, &blocks).unwrap();
    assert_eq!(&apdu[0..4], &[0x84, 0xD8, 0x00, 0x81]); // P1=00 add, P2=81
    assert_eq!(apdu[5], 0x31); // new_kvn is the first data byte
    assert_eq!(apdu[6], 0x88); // first block key_type
    assert_eq!(apdu[7], 0x11); // block len = 1 + len(enc) = 1 + 16
    assert_eq!(apdu[8], 0x10); // AES clear-key length = 16
    assert_eq!(apdu[25], 0x03); // KCV_len (after 16-byte key)
    assert_eq!(&apdu[26..29], &[0xAA, 0xBB, 0xCC]);
    assert_eq!(*apdu.last().unwrap(), 0x00); // Le
}

#[test]
fn aes192_and_aes256_clear_length_byte() {
    // AES-192's 24-byte key is 0x80-padded to a 32-byte ciphertext, the same
    // length as AES-256, so only the inner clear-key-length byte tells them
    // apart: 0x18 (24) vs 0x20 (32). Amendment D §7.2. Layout per block:
    // [6]=key_type [7]=block_len(=1+32) [8]=clear_len [9..41]=enc …
    let enc = [0x11u8; 32];

    let b192 = [
        aes_block_clear(&enc, 24, [1, 2, 3]),
        aes_block_clear(&enc, 24, [1, 2, 3]),
        aes_block_clear(&enc, 24, [1, 2, 3]),
    ];
    let a192 = put_key(0x00, 0x31, &b192).unwrap();
    assert_eq!(a192[6], 0x88); // key_type AES
    assert_eq!(a192[7], 0x21); // block_len = 1 + 32
    assert_eq!(a192[8], 0x18); // clear-key length = 24 (NOT the 32-byte ciphertext)

    let b256 = [
        aes_block_clear(&enc, 32, [1, 2, 3]),
        aes_block_clear(&enc, 32, [1, 2, 3]),
        aes_block_clear(&enc, 32, [1, 2, 3]),
    ];
    let a256 = put_key(0x00, 0x31, &b256).unwrap();
    assert_eq!(a256[7], 0x21); // block_len = 1 + 32
    assert_eq!(a256[8], 0x20); // clear-key length = 32
}

#[test]
fn oversized_key_value_overflows() {
    let enc = [0x00u8; 255];
    let blocks = [
        aes_block(&enc, [0; 3]),
        aes_block(&enc, [0; 3]),
        aes_block(&enc, [0; 3]),
    ];
    assert_eq!(put_key(0x30, 0x30, &blocks), Err(BuildError::Overflow));
}

// ---- RMAC SESSION

#[test]
fn begin_wraps_data_lv_with_p1_10() {
    // 80 7A 10 00 | Lc=04 | LV(03 A1 B2 C3) | Le=00
    let apdu = begin_rmac_session(&[0xA1, 0xB2, 0xC3]).unwrap();
    assert_eq!(
        HexSlice(&apdu),
        HexSlice(&[0x80, 0x7A, 0x10, 0x00, 0x04, 0x03, 0xA1, 0xB2, 0xC3, 0x00])
    );
}

#[test]
fn begin_rejects_empty_and_oversized_data() {
    assert_eq!(begin_rmac_session(&[]), Err(BuildError::Overflow));
    assert_eq!(begin_rmac_session(&[0u8; 25]), Err(BuildError::Overflow));
    // Boundary: 24 data bytes → 25-byte LV, still valid.
    assert!(begin_rmac_session(&[0u8; 24]).is_ok());
}

#[test]
fn end_p2_selects_end_vs_return_only() {
    // End + return: 80 78 00 03 00
    assert_eq!(
        HexSlice(&end_rmac_session(true)),
        HexSlice(&[0x80, 0x78, 0x00, 0x03, 0x00])
    );
    // Return only: 80 78 00 01 00
    assert_eq!(
        HexSlice(&end_rmac_session(false)),
        HexSlice(&[0x80, 0x78, 0x00, 0x01, 0x00])
    );
}

// ---- For many inputs

#[test]
fn get_data_is_header_tag_le_for_every_tag() {
    for tag in 0..=0xFFFFu16 {
        let [p1, p2] = tag.to_be_bytes();
        assert_eq!(get_data(tag).unwrap().as_slice(), &[0x80, 0xCA, p1, p2, 0x00]);
    }
}

#[test]
fn select_takes_every_short_length() {
    for n in 0..400usize {
        let aid = vec![n as u8; n];
        match select_by_aid(&aid) {
            Ok(apdu) if n == 0 => assert_eq!(apdu.as_slice(), &[0x00, 0xA4, 0x04, 0x00, 0x00]),
            Ok(apdu) => {
                assert!(n <= 255);
                assert_eq!(&apdu[0..4], &[0x00, 0xA4, 0x04, 0x00]);
                assert_eq!(usize::from(apdu[4]), n);
                assert_eq!(&apdu[5..5 + n], aid.as_slice());
                assert_eq!(apdu[5 + n], 0x00);
                assert_eq!(apdu.len(), n + 6);
            }
            Err(e) => {
                assert!(n > 255);
                assert_eq!(e, BuildError::Overflow);
            }
        }
    }
}

#[test]
fn delete_key_scope_combinations() {
    let some = [None, Some(0x00), Some(0x01), Some(0x7F), Some(0xFF)];
    for kid in some {
        for kvn in some {
            if kid.is_none() && kvn.is_none() {
                assert_eq!(delete_key(kid, kvn), Err(BuildError::EmptyKeyScope));
                continue;
            }
            let apdu = delete_key(kid, kvn).unwrap();
            assert_eq!(&apdu[0..4], &[0x84, 0xE4, 0x00, 0x00]);
            let body = &apdu[5..apdu.len() - 1];
            if let Some(k) = kid {
                assert_eq!(&body[0..3], &[0xD0, 0x01, k]);
            }
            if let Some(v) = kvn {
                assert_eq!(&body[body.len() - 3..], &[0xD2, 0x01, v]);
            }
        }
    }
}
