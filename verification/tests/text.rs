//! Reports and card data as text.
use scll::aid::Aid;
use scll::buffers::{Field, Rapdu};
use scll::command::install::PrivLen;
use scll::error::{Warning, WarningKind};
use scll::model::{
    ApplicationEntry, CardCapabilities, CardInfo, CardInventory, CipherAlg, DiscoveryWarning,
    ExecutableLoadFileEntry, KeyInfo, KeyTemplateFormat, KeyType, Keyset, ScpVariant,
    SecurityDomainEntry,
};
use scll::report::{
    AppletTransmitParams, AppletTransmitReport, CardLifeCycle, CreateSsdParams, CreateSsdReport,
    DeleteCascade, DeleteKeyParams, DeleteKeyReport, DeleteObjectParams, DeleteTargetKind,
    GetCardInventoryParams, GetCardStatusParams, GetCardStatusReport, InstallAppletParams,
    LoadPackageParams, OpenScpParams, PutKeysParams, ScpProtocol, ScpTargetKind,
};
use scll::transport::TransportProtocol;
use scll::util::hex::{hex_word, lower_hex_literal};
use scll::util::text::{bool_of, decimal_of, field, list, record, tagged, Logged};

fn aid(last: u8) -> Aid {
    Aid::new(&[0xA0, 0x00, 0x00, 0x01, last]).unwrap()
}

#[test]
fn numbers_and_truth_values() {
    assert_eq!(decimal_of(0), "0");
    assert_eq!(decimal_of(9), "9");
    assert_eq!(decimal_of(10), "10");
    assert_eq!(decimal_of(u64::MAX), "18446744073709551615");
    assert_eq!(bool_of(true), "true");
    assert_eq!(bool_of(false), "false");
    assert_eq!(hex_word(0x6A82), "0x6A82");
    assert_eq!(hex_word(0x0001), "0x0001");
    assert_eq!(lower_hex_literal(0xAF), "0xaf");
    assert_eq!(lower_hex_literal(0x05), "0x05");
}

#[test]
fn records_lists_and_tags() {
    assert_eq!(tagged("Some", "7"), "Some(7)");
    assert_eq!(list(&vec![]), "[]");
    assert_eq!(list(&vec!["a".to_owned()]), "[a]");
    let fields = vec![field("a", "1".to_owned()), field("b", "2".to_owned())];
    assert_eq!(record("R", &fields), "R { a: 1, b: 2 }");
    assert_eq!(Some((3, 0, 5)).to_text(), "Some((3, 0, 5))");
    assert_eq!(None::<Aid>.to_text(), "None");
    assert_eq!(vec![KeyType::Des, KeyType::Other(7)].to_text(), "[Des, Other(7)]");
}

#[test]
fn texts_are_quoted_and_escaped() {
    assert_eq!("plain".to_owned().to_text(), "\"plain\"");
    assert_eq!("a\"b\\c\n".to_owned().to_text(), r#""a\"b\\c\n""#);
    assert_eq!(CipherAlg::Other("x\"y".to_owned()).to_text(), r#"Other("x\"y")"#);
    assert_eq!(
        DiscoveryWarning::Other("odd".to_owned()).to_text(),
        r#"Other("odd")"#
    );
}

#[test]
fn identifiers_show_their_bytes() {
    let a = Aid::new(&[0xA0, 0x00, 0x00, 0x01, 0x51, 0x53, 0x44]).unwrap();
    assert_eq!(a.to_text(), r#"Aid("A0000001515344")"#);
}

#[test]
fn keys_and_variants() {
    assert_eq!(
        ScpVariant::Scp03 { i_param: 0x70 }.to_text(),
        "Scp03 { i_param: 0x70 }"
    );
    assert_eq!(
        ScpVariant::Scp02 { i_param: 0x1a }.to_text(),
        "Scp02 { i_param: 0x1a }"
    );
    let keyset = Keyset {
        kvn: 0x30,
        keys: vec![KeyInfo {
            kid: 1,
            key_type: KeyType::Aes,
            key_length: 16,
        }],
    };
    assert_eq!(
        keyset.to_text(),
        "Keyset { kvn: 0x30, keys: [KeyInfo { kid: 0x01, key_type: Aes, key_length: 16 }] }"
    );
}

#[test]
fn card_info_shows_every_field() {
    let info = CardInfo {
        isd_aid: aid(1),
        atr_or_ats: vec![0x3B, 0x00],
        transport_protocol: TransportProtocol::T1,
        scp_supported: vec![ScpVariant::Scp03 { i_param: 0x70 }],
        scp_default: ScpVariant::Scp03 { i_param: 0x70 },
        isd_keysets: vec![],
        isd_key_template_format: KeyTemplateFormat::Basic,
        capabilities: CardCapabilities {
            max_logical_channels: 4,
            ciphers_supported: vec![CipherAlg::Aes128, CipherAlg::Sha1],
            privileges_supported: vec![0x80],
            memory_total_bytes: Some(65536),
            memory_free_bytes: None,
            cci_raw: vec![0x67, 0x00],
        },
        card_recognition_data_raw: vec![],
        iin: Some(Field::from_slice(&[0x42, 0x01]).unwrap()),
        cin: None,
        card_image_number: None,
        jc_platform_version: None,
        privilege_encoding: PrivLen::Canonical,
        quirks_detected: vec!["slow".to_owned()],
        discovery_warnings: vec![DiscoveryWarning::UnknownLifecycleByte(66)],
    };
    assert_eq!(
        info.to_text(),
        concat_all(&[
            r#"CardInfo { isd_aid: Aid("A000000101"), atr_or_ats: "3B00", "#,
            "transport_protocol: T1, scp_supported: [Scp03 { i_param: 0x70 }], ",
            "scp_default: Scp03 { i_param: 0x70 }, isd_keysets: [], ",
            "isd_key_template_format: Basic, ",
            "capabilities: CardCapabilities { max_logical_channels: 4, ",
            r#"ciphers_supported: [Aes128, Sha1], privileges_supported: "80", "#,
            r#"memory_total_bytes: Some(65536), memory_free_bytes: None, cci_raw: "6700" }, "#,
            r#"card_recognition_data_raw: "", iin: Some("4201"), cin: None, "#,
            "card_image_number: None, jc_platform_version: None, ",
            r#"privilege_encoding: Canonical, quirks_detected: ["slow"], "#,
            "discovery_warnings: [UnknownLifecycleByte(66)] }",
        ])
    );
}

fn concat_all(parts: &[&str]) -> String {
    parts.concat()
}

#[test]
fn inventories_show_their_entries() {
    let inventory = CardInventory {
        security_domains: vec![SecurityDomainEntry {
            aid: aid(1),
            life_cycle_state: 15,
            privileges: [0x9E, 0xFE, 0x80],
            associated_sd_aid: None,
        }],
        applets: vec![ApplicationEntry {
            aid: aid(2),
            life_cycle_state: 7,
            privileges: [0, 0, 0],
            associated_sd_aid: aid(1),
            associated_elf_aid: Some(aid(3)),
        }],
        elfs: vec![ExecutableLoadFileEntry {
            aid: aid(3),
            life_cycle_state: 1,
            associated_sd_aid: aid(1),
            modules: vec![aid(4), aid(5)],
        }],
    };
    assert_eq!(
        inventory.to_text(),
        concat_all(&[
            "CardInventory { security_domains: [SecurityDomainEntry { ",
            r#"aid: Aid("A000000101"), life_cycle_state: 15, privileges: "9EFE80", "#,
            "associated_sd_aid: None }], applets: [ApplicationEntry { ",
            r#"aid: Aid("A000000102"), life_cycle_state: 7, privileges: "000000", "#,
            r#"associated_sd_aid: Aid("A000000101"), "#,
            r#"associated_elf_aid: Some(Aid("A000000103")) }], "#,
            r#"elfs: [ExecutableLoadFileEntry { aid: Aid("A000000103"), life_cycle_state: 1, "#,
            r#"associated_sd_aid: Aid("A000000101"), "#,
            r#"modules: [Aid("A000000104"), Aid("A000000105")] }] }"#,
        ])
    );
    let counts = GetCardInventoryParams {
        isd_aid: aid(1),
        security_domain_count: 1,
        application_count: 1,
        elf_count: 1,
        truncated: false,
    };
    assert_eq!(
        counts.to_text(),
        concat_all(&[
            r#"GetCardInventoryParams { isd_aid: Aid("A000000101"), security_domain_count: 1, "#,
            "application_count: 1, elf_count: 1, truncated: false }",
        ])
    );
}

#[test]
fn reports_show_their_parameters() {
    let put = PutKeysParams {
        target_sd_aid: aid(1),
        scp_protocol: ScpProtocol::Scp03,
        new_kvn: 0x3F,
        key_type: KeyType::Aes,
        key_length: 16,
        kcvs: [1, 2, 3, 4, 5, 6, 7, 8, 9],
    };
    assert_eq!(
        put.to_text(),
        concat_all(&[
            r#"PutKeysParams { target_sd_aid: Aid("A000000101"), scp_protocol: Scp03, "#,
            r#"new_kvn: 0x3F, key_type: Aes, key_length: 16, kcvs: "010203040506070809" }"#,
        ])
    );
    let deleted = DeleteKeyReport {
        effective: DeleteKeyParams {
            target_sd_aid: aid(1),
            kvn: 0x20,
        },
        warnings: vec![
            Warning::plain(WarningKind::LifecycleNoOp),
            Warning {
                kind: WarningKind::UnknownLifecycleByte(3),
                detail: "late".to_owned(),
            },
        ],
    };
    assert_eq!(
        deleted.to_text(),
        concat_all(&[
            "DeleteKeyReport { effective: DeleteKeyParams { ",
            r#"target_sd_aid: Aid("A000000101"), kvn: 0x20 }, "#,
            r#"warnings: [Warning { kind: LifecycleNoOp, detail: "" }, "#,
            r#"Warning { kind: UnknownLifecycleByte(3), detail: "late" }] }"#,
        ])
    );
    let created = CreateSsdReport {
        effective: CreateSsdParams {
            ssd_aid_effective: aid(2),
            aid_was_generated: true,
            parent_sd_aid: aid(1),
            privileges_used: [0x80, 0, 0],
            elf_aid_used: aid(3),
            module_aid_used: aid(4),
            install_params_used: vec![0xC9, 0x00],
        },
        warnings: vec![],
    };
    assert_eq!(
        created.to_text(),
        concat_all(&[
            r#"CreateSsdReport { effective: CreateSsdParams { ssd_aid_effective: "#,
            r#"Aid("A000000102"), aid_was_generated: true, parent_sd_aid: Aid("A000000101"), "#,
            r#"privileges_used: "800000", elf_aid_used: Aid("A000000103"), "#,
            r#"module_aid_used: Aid("A000000104"), install_params_used: "C900" }, warnings: [] }"#,
        ])
    );
    let loaded = LoadPackageParams {
        package_aid: aid(3),
        load_file_size: 4096,
        hash_value: vec![],
        block_count: 17,
        target_sd_aid: aid(1),
    };
    assert_eq!(
        loaded.to_text(),
        concat_all(&[
            r#"LoadPackageParams { package_aid: Aid("A000000103"), load_file_size: 4096, "#,
            r#"hash_value: "", block_count: 17, target_sd_aid: Aid("A000000101") }"#,
        ])
    );
    let removed = DeleteObjectParams {
        target_aid: aid(2),
        target_kind: DeleteTargetKind::AppletInstance,
        cascade_requested: DeleteCascade::IfLastInstance,
        cascade_used: false,
        instances_removed: vec![aid(2)],
        elfs_removed: vec![],
    };
    assert_eq!(
        removed.to_text(),
        concat_all(&[
            r#"DeleteObjectParams { target_aid: Aid("A000000102"), "#,
            "target_kind: AppletInstance, cascade_requested: IfLastInstance, ",
            r#"cascade_used: false, instances_removed: [Aid("A000000102")], elfs_removed: [] }"#,
        ])
    );
    let installed = InstallAppletParams {
        instance_aid: aid(2),
        package_aid_used: aid(3),
        module_aid_used: aid(4),
        privileges_used: [0, 0, 0],
        system_install_params: vec![0xEF, 0x00],
        applet_install_params: vec![0xC9],
        parent_sd_aid: aid(1),
    };
    assert_eq!(
        installed.to_text(),
        concat_all(&[
            r#"InstallAppletParams { instance_aid: Aid("A000000102"), "#,
            r#"package_aid_used: Aid("A000000103"), module_aid_used: Aid("A000000104"), "#,
            r#"privileges_used: "000000", system_install_params: "EF00", "#,
            r#"applet_install_params: "C9", parent_sd_aid: Aid("A000000101") }"#,
        ])
    );
    let opened = OpenScpParams {
        target_aid: aid(1),
        target_kind: ScpTargetKind::SecurityDomainAid,
        sd_aid_used_for_keys: aid(1),
        scp_protocol_effective: ScpProtocol::Scp03,
        kvn_requested: 0,
        kvn_effective: 0x30,
        i_param_effective: 0x70,
        security_level_requested: 0x33,
        security_level_effective: 0x13,
        session_id: 5,
        invoker_aid_used: aid(1),
    };
    assert_eq!(
        opened.to_text(),
        concat_all(&[
            r#"OpenScpParams { target_aid: Aid("A000000101"), target_kind: SecurityDomainAid, "#,
            r#"sd_aid_used_for_keys: Aid("A000000101"), scp_protocol_effective: Scp03, "#,
            "kvn_requested: 0x00, kvn_effective: 0x30, i_param_effective: 0x70, ",
            "security_level_requested: 0x33, security_level_effective: 0x13, session_id: 5, ",
            r#"invoker_aid_used: Aid("A000000101") }"#,
        ])
    );
    let status = GetCardStatusReport {
        state: CardLifeCycle::Unknown(66),
        effective: GetCardStatusParams {
            raw_state_byte: 66,
            decoded_state: CardLifeCycle::Unknown(66),
            isd_aid: aid(1),
        },
        warnings: vec![],
    };
    assert_eq!(
        status.to_text(),
        concat_all(&[
            "GetCardStatusReport { state: Unknown(66), effective: GetCardStatusParams { ",
            r#"raw_state_byte: 66, decoded_state: Unknown(66), isd_aid: Aid("A000000101") }, "#,
            "warnings: [] }",
        ])
    );
}

#[test]
fn exchanges_show_data_and_status() {
    let report = AppletTransmitReport {
        rapdu: Rapdu::from_slice(&[0xCA, 0xFE]).unwrap(),
        sw: 0x9000,
        effective: AppletTransmitParams {
            session_id: 2,
            capdu_plaintext_len: 5,
            rapdu_plaintext_len: 2,
            sw: [0x90, 0x00],
            sec_level: 3,
            scp_protocol: ScpProtocol::Scp02,
        },
        warnings: vec![],
    };
    assert_eq!(
        report.to_text(),
        concat_all(&[
            r#"AppletTransmitReport { rapdu: "CAFE", sw: 0x9000, effective: "#,
            "AppletTransmitParams { session_id: 2, capdu_plaintext_len: 5, ",
            r#"rapdu_plaintext_len: 2, sw: "9000", sec_level: 3, scp_protocol: Scp02 }, "#,
            "warnings: [] }",
        ])
    );
}
