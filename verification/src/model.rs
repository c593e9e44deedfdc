//! What a card reports of itself.
use vstd::prelude::*;

use crate::aid::Aid;
use crate::buffers::{field_bytes, field_slice, Field};
use crate::command::install::PrivLen;
use crate::transport::TransportProtocol;
use crate::util::hex::{hex_quoted, lower_hex_literal, lower_literal_hex, quoted_hex};
use crate::util::text::{
    decimal, decimal_of, field, field_text, quoted, quoted_text, record, record_text, tagged,
    tagged_text, texts, Logged,
};

verus! {

/// Everything that discovery learned of a card.
#[derive(Debug)]
pub struct CardInfo {
    pub isd_aid: Aid,
    pub atr_or_ats: Vec<u8>,
    pub transport_protocol: TransportProtocol,
    /// Every advertised secure channel variant, in the card's order.
    pub scp_supported: Vec<ScpVariant>,
    /// The first of them.
    pub scp_default: ScpVariant,
    /// The keys of the issuer security domain, grouped by version.
    pub isd_keysets: Vec<Keyset>,
    pub isd_key_template_format: KeyTemplateFormat,
    pub capabilities: CardCapabilities,
    pub card_recognition_data_raw: Vec<u8>,
    pub iin: Option<Field>,
    pub cin: Option<Field>,
    /// The same as `cin`.
    pub card_image_number: Option<Field>,
    pub jc_platform_version: Option<(u8, u8, u8)>,
    pub privilege_encoding: PrivLen,
    pub quirks_detected: Vec<String>,
    pub discovery_warnings: Vec<DiscoveryWarning>,
}

/// The objects on a card at one moment.
#[derive(Debug)]
pub struct CardInventory {
    pub security_domains: Vec<SecurityDomainEntry>,
    pub applets: Vec<ApplicationEntry>,
    pub elfs: Vec<ExecutableLoadFileEntry>,
}

/// One advertised secure channel variant.
#[derive(Debug, Clone, Copy, PartialEq, Eq, Structural)]
pub enum ScpVariant {
    Scp02 { i_param: u8 },
    Scp03 { i_param: u8 },
}

/// The keys of one key version.
#[derive(Debug)]
pub struct Keyset {
    pub kvn: u8,
    pub keys: Vec<KeyInfo>,
}

/// The content of a [`Keyset`].
pub struct KeysetView {
    pub kvn: u8,
    pub keys: Seq<KeyInfo>,
}

impl View for Keyset {
    type V = KeysetView;

    open spec fn view(&self) -> KeysetView {
        KeysetView { kvn: self.kvn, keys: self.keys@ }
    }
}

/// The contents of a list of key sets.
pub open spec fn keyset_views(sets: Seq<Keyset>) -> Seq<KeysetView> {
    sets.map_values(|k: Keyset| k@)
}

/// One key slot.
#[derive(Debug, Clone, Copy, PartialEq, Eq, Structural)]
pub struct KeyInfo {
    pub kid: u8,
    pub key_type: KeyType,
    pub key_length: u8,
}

/// Decoded key type byte.
#[derive(Debug, Clone, Copy, PartialEq, Eq, Structural)]
pub enum KeyType {
    Des,
    Aes,
    RsaPublic,
    RsaPrivateCrt,
    RsaPrivateExponent,
    EccPublic,
    EccPrivate,
    EccParametersRef,
    Other(u8),
}

/// Format of the key information template.
#[derive(Debug, Clone, Copy, PartialEq, Eq, Structural)]
pub enum KeyTemplateFormat {
    Basic,
    Extended,
}

/// Decoded card capability information.
#[derive(Debug)]
pub struct CardCapabilities {
    /// One where the card does not say.
    pub max_logical_channels: u8,
    pub ciphers_supported: Vec<CipherAlg>,
    pub privileges_supported: Vec<u8>,
    pub memory_total_bytes: Option<u32>,
    pub memory_free_bytes: Option<u32>,
    /// The raw object, for diagnostics.
    pub cci_raw: Vec<u8>,
}

/// Cipher algorithms that a card may advertise.
#[derive(Debug)]
#[non_exhaustive]
pub enum CipherAlg {
    Aes128,
    Aes192,
    Aes256,
    TripleDes,
    Rsa1024,
    Rsa2048,
    Rsa3072,
    Rsa4096,
    EccP256,
    EccP384,
    EccP521,
    Sha1,
    Sha256,
    Sha384,
    Sha512,
    Other(String),
}

/// A security domain.
#[derive(Debug)]
pub struct SecurityDomainEntry {
    pub aid: Aid,
    pub life_cycle_state: u8,
    pub privileges: [u8; 3],
    /// None for the issuer security domain.
    pub associated_sd_aid: Option<Aid>,
}

/// An application instance.
#[derive(Debug)]
pub struct ApplicationEntry {
    pub aid: Aid,
    pub life_cycle_state: u8,
    pub privileges: [u8; 3],
    pub associated_sd_aid: Aid,
    pub associated_elf_aid: Option<Aid>,
}

/// An executable load file.
#[derive(Debug)]
pub struct ExecutableLoadFileEntry {
    pub aid: Aid,
    pub life_cycle_state: u8,
    pub associated_sd_aid: Aid,
    pub modules: Vec<Aid>,
}

/// The content of an optional identifier.
pub open spec fn opt_aid_view(aid: Option<Aid>) -> Option<Seq<u8>> {
    match aid {
        Some(a) => Some(a@),
        None => None,
    }
}

/// The contents of a list of identifiers.
pub open spec fn aid_views(aids: Seq<Aid>) -> Seq<Seq<u8>> {
    aids.map_values(|a: Aid| a@)
}

/// The content of a [`SecurityDomainEntry`].
pub struct SecurityDomainRecord {
    pub aid: Seq<u8>,
    pub life_cycle_state: u8,
    pub privileges: Seq<u8>,
    pub associated_sd_aid: Option<Seq<u8>>,
}

impl View for SecurityDomainEntry {
    type V = SecurityDomainRecord;

    open spec fn view(&self) -> SecurityDomainRecord {
        SecurityDomainRecord {
            aid: self.aid@,
            life_cycle_state: self.life_cycle_state,
            privileges: self.privileges@,
            associated_sd_aid: opt_aid_view(self.associated_sd_aid),
        }
    }
}

/// The content of an [`ApplicationEntry`].
pub struct ApplicationRecord {
    pub aid: Seq<u8>,
    pub life_cycle_state: u8,
    pub privileges: Seq<u8>,
    pub associated_sd_aid: Seq<u8>,
    pub associated_elf_aid: Option<Seq<u8>>,
}

impl View for ApplicationEntry {
    type V = ApplicationRecord;

    open spec fn view(&self) -> ApplicationRecord {
        ApplicationRecord {
            aid: self.aid@,
            life_cycle_state: self.life_cycle_state,
            privileges: self.privileges@,
            associated_sd_aid: self.associated_sd_aid@,
            associated_elf_aid: opt_aid_view(self.associated_elf_aid),
        }
    }
}

/// The content of an [`ExecutableLoadFileEntry`].
pub struct LoadFileRecord {
    pub aid: Seq<u8>,
    pub life_cycle_state: u8,
    pub associated_sd_aid: Seq<u8>,
    pub modules: Seq<Seq<u8>>,
}

impl View for ExecutableLoadFileEntry {
    type V = LoadFileRecord;

    open spec fn view(&self) -> LoadFileRecord {
        LoadFileRecord {
            aid: self.aid@,
            life_cycle_state: self.life_cycle_state,
            associated_sd_aid: self.associated_sd_aid@,
            modules: aid_views(self.modules@),
        }
    }
}

/// The content of a [`CardInventory`].
pub struct InventoryRecord {
    pub security_domains: Seq<SecurityDomainRecord>,
    pub applets: Seq<ApplicationRecord>,
    pub elfs: Seq<LoadFileRecord>,
}

impl View for CardInventory {
    type V = InventoryRecord;

    open spec fn view(&self) -> InventoryRecord {
        InventoryRecord {
            security_domains: self.security_domains@.map_values(|e: SecurityDomainEntry| e@),
            applets: self.applets@.map_values(|e: ApplicationEntry| e@),
            elfs: self.elfs@.map_values(|e: ExecutableLoadFileEntry| e@),
        }
    }
}

/// A remark on data that a card did not give.
#[derive(Debug)]
#[non_exhaustive]
pub enum DiscoveryWarning {
    CardRecognitionDataMissing,
    KeyInformationTemplateMissing,
    CardCapabilityInfoMissing,
    UnknownLifecycleByte(u8),
    GetStatusParseFailed,
    Other(String),
}

// ---- As text ----------------------------------------------------------------

/// Bytes in hexadecimal, where there are any.
pub open spec fn opt_hex_text(v: Option<Field>) -> Seq<char> {
    match v {
        Some(bytes) => tagged_text("Some"@, quoted_hex(field_bytes(bytes))),
        None => "None"@,
    }
}

fn opt_hex(v: &Option<Field>) -> (r: String)
    ensures
        r@ == opt_hex_text(*v),
{
    match v {
        Some(bytes) => tagged("Some", hex_quoted(field_slice(bytes)).as_str()),
        None => "None".to_owned(),
    }
}

/// A number, where there is one.
pub open spec fn opt_decimal(v: Option<u32>) -> Seq<char> {
    match v {
        Some(n) => tagged_text("Some"@, decimal(n as nat)),
        None => "None"@,
    }
}

fn opt_decimal_of(v: Option<u32>) -> (r: String)
    ensures
        r@ == opt_decimal(v),
{
    match v {
        Some(n) => tagged("Some", decimal_of(n as u64).as_str()),
        None => "None".to_owned(),
    }
}

impl Logged for ScpVariant {
    open spec fn text(&self) -> Seq<char> {
        match self {
            ScpVariant::Scp02 { i_param } => record_text(
                "Scp02"@,
                seq![field_text("i_param"@, lower_literal_hex(*i_param))],
            ),
            ScpVariant::Scp03 { i_param } => record_text(
                "Scp03"@,
                seq![field_text("i_param"@, lower_literal_hex(*i_param))],
            ),
        }
    }

    fn to_text(&self) -> (r: String) {
        let (name, i_param): (&str, u8) = match self {
            ScpVariant::Scp02 { i_param } => ("Scp02", *i_param),
            ScpVariant::Scp03 { i_param } => ("Scp03", *i_param),
        };
        let fields: Vec<String> = vec![field("i_param", lower_hex_literal(i_param))];
        assert(texts(fields@) =~= seq![field_text("i_param"@, lower_literal_hex(i_param))]);
        record(name, &fields)
    }
}

impl Logged for KeyType {
    open spec fn text(&self) -> Seq<char> {
        match self {
            KeyType::Des => "Des"@,
            KeyType::Aes => "Aes"@,
            KeyType::RsaPublic => "RsaPublic"@,
            KeyType::RsaPrivateCrt => "RsaPrivateCrt"@,
            KeyType::RsaPrivateExponent => "RsaPrivateExponent"@,
            KeyType::EccPublic => "EccPublic"@,
            KeyType::EccPrivate => "EccPrivate"@,
            KeyType::EccParametersRef => "EccParametersRef"@,
            KeyType::Other(byte) => tagged_text("Other"@, decimal(*byte as nat)),
        }
    }

    fn to_text(&self) -> (r: String) {
        match self {
            KeyType::Des => "Des".to_owned(),
            KeyType::Aes => "Aes".to_owned(),
            KeyType::RsaPublic => "RsaPublic".to_owned(),
            KeyType::RsaPrivateCrt => "RsaPrivateCrt".to_owned(),
            KeyType::RsaPrivateExponent => "RsaPrivateExponent".to_owned(),
            KeyType::EccPublic => "EccPublic".to_owned(),
            KeyType::EccPrivate => "EccPrivate".to_owned(),
            KeyType::EccParametersRef => "EccParametersRef".to_owned(),
            KeyType::Other(byte) => tagged("Other", decimal_of(*byte as u64).as_str()),
        }
    }
}

/// The fields of a logged [`KeyInfo`].
pub open spec fn key_info_fields(v: KeyInfo) -> Seq<Seq<char>> {
    seq![
        field_text("kid"@, lower_literal_hex(v.kid)),
        field_text("key_type"@, v.key_type.text()),
        field_text("key_length"@, decimal(v.key_length as nat)),
    ]
}

impl Logged for KeyInfo {
    open spec fn text(&self) -> Seq<char> {
        record_text("KeyInfo"@, key_info_fields(*self))
    }

    fn to_text(&self) -> (r: String) {
        let fields: Vec<String> = vec![
            field("kid", lower_hex_literal(self.kid)),
            field("key_type", self.key_type.to_text()),
            field("key_length", decimal_of(self.key_length as u64)),
        ];
        assert(texts(fields@) =~= key_info_fields(*self));
        record("KeyInfo", &fields)
    }
}

/// The fields of a logged [`Keyset`].
pub open spec fn keyset_fields(v: Keyset) -> Seq<Seq<char>> {
    seq![
        field_text("kvn"@, lower_literal_hex(v.kvn)),
        field_text("keys"@, v.keys.text()),
    ]
}

impl Logged for Keyset {
    open spec fn text(&self) -> Seq<char> {
        record_text("Keyset"@, keyset_fields(*self))
    }

    fn to_text(&self) -> (r: String) {
        let fields: Vec<String> = vec![
            field("kvn", lower_hex_literal(self.kvn)),
            field("keys", self.keys.to_text()),
        ];
        assert(texts(fields@) =~= keyset_fields(*self));
        record("Keyset", &fields)
    }
}

impl Logged for KeyTemplateFormat {
    open spec fn text(&self) -> Seq<char> {
        match self {
            KeyTemplateFormat::Basic => "Basic"@,
            KeyTemplateFormat::Extended => "Extended"@,
        }
    }

    fn to_text(&self) -> (r: String) {
        match self {
            KeyTemplateFormat::Basic => "Basic".to_owned(),
            KeyTemplateFormat::Extended => "Extended".to_owned(),
        }
    }
}

impl Logged for CipherAlg {
    open spec fn text(&self) -> Seq<char> {
        match self {
            CipherAlg::Aes128 => "Aes128"@,
            CipherAlg::Aes192 => "Aes192"@,
            CipherAlg::Aes256 => "Aes256"@,
            CipherAlg::TripleDes => "TripleDes"@,
            CipherAlg::Rsa1024 => "Rsa1024"@,
            CipherAlg::Rsa2048 => "Rsa2048"@,
            CipherAlg::Rsa3072 => "Rsa3072"@,
            CipherAlg::Rsa4096 => "Rsa4096"@,
            CipherAlg::EccP256 => "EccP256"@,
            CipherAlg::EccP384 => "EccP384"@,
            CipherAlg::EccP521 => "EccP521"@,
            CipherAlg::Sha1 => "Sha1"@,
            CipherAlg::Sha256 => "Sha256"@,
            CipherAlg::Sha384 => "Sha384"@,
            CipherAlg::Sha512 => "Sha512"@,
            CipherAlg::Other(detail) => tagged_text("Other"@, quoted_text(detail@)),
        }
    }

    fn to_text(&self) -> (r: String) {
        match self {
            CipherAlg::Aes128 => "Aes128".to_owned(),
            CipherAlg::Aes192 => "Aes192".to_owned(),
            CipherAlg::Aes256 => "Aes256".to_owned(),
            CipherAlg::TripleDes => "TripleDes".to_owned(),
            CipherAlg::Rsa1024 => "Rsa1024".to_owned(),
            CipherAlg::Rsa2048 => "Rsa2048".to_owned(),
            CipherAlg::Rsa3072 => "Rsa3072".to_owned(),
            CipherAlg::Rsa4096 => "Rsa4096".to_owned(),
            CipherAlg::EccP256 => "EccP256".to_owned(),
            CipherAlg::EccP384 => "EccP384".to_owned(),
            CipherAlg::EccP521 => "EccP521".to_owned(),
            CipherAlg::Sha1 => "Sha1".to_owned(),
            CipherAlg::Sha256 => "Sha256".to_owned(),
            CipherAlg::Sha384 => "Sha384".to_owned(),
            CipherAlg::Sha512 => "Sha512".to_owned(),
            CipherAlg::Other(detail) => tagged("Other", quoted(detail.as_str()).as_str()),
        }
    }
}

/// The fields of a logged [`CardCapabilities`].
pub open spec fn card_capabilities_fields(v: CardCapabilities) -> Seq<Seq<char>> {
    seq![
        field_text("max_logical_channels"@, decimal(v.max_logical_channels as nat)),
        field_text("ciphers_supported"@, v.ciphers_supported.text()),
        field_text("privileges_supported"@, quoted_hex(v.privileges_supported@)),
        field_text("memory_total_bytes"@, opt_decimal(v.memory_total_bytes)),
        field_text("memory_free_bytes"@, opt_decimal(v.memory_free_bytes)),
        field_text("cci_raw"@, quoted_hex(v.cci_raw@)),
    ]
}

impl Logged for CardCapabilities {
    open spec fn text(&self) -> Seq<char> {
        record_text("CardCapabilities"@, card_capabilities_fields(*self))
    }

    fn to_text(&self) -> (r: String) {
        let fields: Vec<String> = vec![
            field("max_logical_channels", decimal_of(self.max_logical_channels as u64)),
            field("ciphers_supported", self.ciphers_supported.to_text()),
            field("privileges_supported", hex_quoted(self.privileges_supported.as_slice())),
            field("memory_total_bytes", opt_decimal_of(self.memory_total_bytes)),
            field("memory_free_bytes", opt_decimal_of(self.memory_free_bytes)),
            field("cci_raw", hex_quoted(self.cci_raw.as_slice())),
        ];
        assert(texts(fields@) =~= card_capabilities_fields(*self));
        record("CardCapabilities", &fields)
    }
}

impl Logged for DiscoveryWarning {
    open spec fn text(&self) -> Seq<char> {
        match self {
            DiscoveryWarning::CardRecognitionDataMissing => "CardRecognitionDataMissing"@,
            DiscoveryWarning::KeyInformationTemplateMissing => "KeyInformationTemplateMissing"@,
            DiscoveryWarning::CardCapabilityInfoMissing => "CardCapabilityInfoMissing"@,
            DiscoveryWarning::GetStatusParseFailed => "GetStatusParseFailed"@,
            DiscoveryWarning::UnknownLifecycleByte(byte) => tagged_text(
                "UnknownLifecycleByte"@,
                decimal(*byte as nat),
            ),
            DiscoveryWarning::Other(detail) => tagged_text("Other"@, quoted_text(detail@)),
        }
    }

    fn to_text(&self) -> (r: String) {
        match self {
            DiscoveryWarning::CardRecognitionDataMissing => "CardRecognitionDataMissing".to_owned(),
            DiscoveryWarning::KeyInformationTemplateMissing => {
                "KeyInformationTemplateMissing".to_owned()
            },
            DiscoveryWarning::CardCapabilityInfoMissing => "CardCapabilityInfoMissing".to_owned(),
            DiscoveryWarning::GetStatusParseFailed => "GetStatusParseFailed".to_owned(),
            DiscoveryWarning::UnknownLifecycleByte(byte) => tagged(
                "UnknownLifecycleByte",
                decimal_of(*byte as u64).as_str(),
            ),
            DiscoveryWarning::Other(detail) => tagged("Other", quoted(detail.as_str()).as_str()),
        }
    }
}

/// The fields of a logged [`CardInfo`].
pub open spec fn card_info_fields(v: CardInfo) -> Seq<Seq<char>> {
    seq![
        field_text("isd_aid"@, v.isd_aid.text()),
        field_text("atr_or_ats"@, quoted_hex(v.atr_or_ats@)),
        field_text("transport_protocol"@, v.transport_protocol.text()),
        field_text("scp_supported"@, v.scp_supported.text()),
        field_text("scp_default"@, v.scp_default.text()),
        field_text("isd_keysets"@, v.isd_keysets.text()),
        field_text("isd_key_template_format"@, v.isd_key_template_format.text()),
        field_text("capabilities"@, v.capabilities.text()),
        field_text("card_recognition_data_raw"@, quoted_hex(v.card_recognition_data_raw@)),
        field_text("iin"@, opt_hex_text(v.iin)),
        field_text("cin"@, opt_hex_text(v.cin)),
        field_text("card_image_number"@, opt_hex_text(v.card_image_number)),
        field_text("jc_platform_version"@, v.jc_platform_version.text()),
        field_text("privilege_encoding"@, v.privilege_encoding.text()),
        field_text("quirks_detected"@, v.quirks_detected.text()),
        field_text("discovery_warnings"@, v.discovery_warnings.text()),
    ]
}

impl Logged for CardInfo {
    open spec fn text(&self) -> Seq<char> {
        record_text("CardInfo"@, card_info_fields(*self))
    }

    fn to_text(&self) -> (r: String) {
        let fields: Vec<String> = vec![
            field("isd_aid", self.isd_aid.to_text()),
            field("atr_or_ats", hex_quoted(self.atr_or_ats.as_slice())),
            field("transport_protocol", self.transport_protocol.to_text()),
            field("scp_supported", self.scp_supported.to_text()),
            field("scp_default", self.scp_default.to_text()),
            field("isd_keysets", self.isd_keysets.to_text()),
            field("isd_key_template_format", self.isd_key_template_format.to_text()),
            field("capabilities", self.capabilities.to_text()),
            field(
                "card_recognition_data_raw",
                hex_quoted(self.card_recognition_data_raw.as_slice()),
            ),
            field("iin", opt_hex(&self.iin)),
            field("cin", opt_hex(&self.cin)),
            field("card_image_number", opt_hex(&self.card_image_number)),
            field("jc_platform_version", self.jc_platform_version.to_text()),
            field("privilege_encoding", self.privilege_encoding.to_text()),
            field("quirks_detected", self.quirks_detected.to_text()),
            field("discovery_warnings", self.discovery_warnings.to_text()),
        ];
        assert(texts(fields@) =~= card_info_fields(*self));
        record("CardInfo", &fields)
    }
}

/// The fields of a logged [`SecurityDomainEntry`].
pub open spec fn security_domain_entry_fields(v: SecurityDomainEntry) -> Seq<Seq<char>> {
    seq![
        field_text("aid"@, v.aid.text()),
        field_text("life_cycle_state"@, decimal(v.life_cycle_state as nat)),
        field_text("privileges"@, quoted_hex(v.privileges@)),
        field_text("associated_sd_aid"@, v.associated_sd_aid.text()),
    ]
}

impl Logged for SecurityDomainEntry {
    open spec fn text(&self) -> Seq<char> {
        record_text("SecurityDomainEntry"@, security_domain_entry_fields(*self))
    }

    fn to_text(&self) -> (r: String) {
        let fields: Vec<String> = vec![
            field("aid", self.aid.to_text()),
            field("life_cycle_state", decimal_of(self.life_cycle_state as u64)),
            field("privileges", hex_quoted(self.privileges.as_slice())),
            field("associated_sd_aid", self.associated_sd_aid.to_text()),
        ];
        assert(texts(fields@) =~= security_domain_entry_fields(*self));
        record("SecurityDomainEntry", &fields)
    }
}

/// The fields of a logged [`ApplicationEntry`].
pub open spec fn application_entry_fields(v: ApplicationEntry) -> Seq<Seq<char>> {
    seq![
        field_text("aid"@, v.aid.text()),
        field_text("life_cycle_state"@, decimal(v.life_cycle_state as nat)),
        field_text("privileges"@, quoted_hex(v.privileges@)),
        field_text("associated_sd_aid"@, v.associated_sd_aid.text()),
        field_text("associated_elf_aid"@, v.associated_elf_aid.text()),
    ]
}

impl Logged for ApplicationEntry {
    open spec fn text(&self) -> Seq<char> {
        record_text("ApplicationEntry"@, application_entry_fields(*self))
    }

    fn to_text(&self) -> (r: String) {
        let fields: Vec<String> = vec![
            field("aid", self.aid.to_text()),
            field("life_cycle_state", decimal_of(self.life_cycle_state as u64)),
            field("privileges", hex_quoted(self.privileges.as_slice())),
            field("associated_sd_aid", self.associated_sd_aid.to_text()),
            field("associated_elf_aid", self.associated_elf_aid.to_text()),
        ];
        assert(texts(fields@) =~= application_entry_fields(*self));
        record("ApplicationEntry", &fields)
    }
}

/// The fields of a logged [`ExecutableLoadFileEntry`].
pub open spec fn executable_load_file_entry_fields(v: ExecutableLoadFileEntry) -> Seq<Seq<char>> {
    seq![
        field_text("aid"@, v.aid.text()),
        field_text("life_cycle_state"@, decimal(v.life_cycle_state as nat)),
        field_text("associated_sd_aid"@, v.associated_sd_aid.text()),
        field_text("modules"@, v.modules.text()),
    ]
}

impl Logged for ExecutableLoadFileEntry {
    open spec fn text(&self) -> Seq<char> {
        record_text("ExecutableLoadFileEntry"@, executable_load_file_entry_fields(*self))
    }

    fn to_text(&self) -> (r: String) {
        let fields: Vec<String> = vec![
            field("aid", self.aid.to_text()),
            field("life_cycle_state", decimal_of(self.life_cycle_state as u64)),
            field("associated_sd_aid", self.associated_sd_aid.to_text()),
            field("modules", self.modules.to_text()),
        ];
        assert(texts(fields@) =~= executable_load_file_entry_fields(*self));
        record("ExecutableLoadFileEntry", &fields)
    }
}

/// The fields of a logged [`CardInventory`].
pub open spec fn card_inventory_fields(v: CardInventory) -> Seq<Seq<char>> {
    seq![
        field_text("security_domains"@, v.security_domains.text()),
        field_text("applets"@, v.applets.text()),
        field_text("elfs"@, v.elfs.text()),
    ]
}

impl Logged for CardInventory {
    open spec fn text(&self) -> Seq<char> {
        record_text("CardInventory"@, card_inventory_fields(*self))
    }

    fn to_text(&self) -> (r: String) {
        let fields: Vec<String> = vec![
            field("security_domains", self.security_domains.to_text()),
            field("applets", self.applets.to_text()),
            field("elfs", self.elfs.to_text()),
        ];
        assert(texts(fields@) =~= card_inventory_fields(*self));
        record("CardInventory", &fields)
    }
}

} // verus!
