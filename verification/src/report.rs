//! What each workflow reports.
use vstd::prelude::*;

use crate::aid::Aid;
use crate::buffers::{rapdu_bytes, rapdu_slice, Capdu, Rapdu};
use crate::error::Warning;
use crate::model::{CardInventory, KeyType};
use crate::scp::ScpSession;
use crate::transport::TransportCaps;
use crate::util::hex::{
    hex_literal, hex_quoted, hex_word, literal_hex, quoted_hex, word_literal_hex,
};
use crate::util::text::{
    bool_of, bool_text, decimal, decimal_of, field, field_text, record, record_text, tagged,
    tagged_text, texts, Logged,
};

verus! {

#[derive(Debug)]
pub struct ProbeReport {
    pub effective: ProbeParams,
    pub warnings: Vec<Warning>,
}

#[derive(Debug)]
pub struct PutKeysReport {
    pub effective: PutKeysParams,
    pub warnings: Vec<Warning>,
}

#[derive(Debug)]
pub struct DeleteKeyReport {
    pub effective: DeleteKeyParams,
    pub warnings: Vec<Warning>,
}

#[derive(Debug)]
pub struct CreateSsdReport {
    pub effective: CreateSsdParams,
    pub warnings: Vec<Warning>,
}

#[derive(Debug)]
pub struct LoadPackageReport {
    pub effective: LoadPackageParams,
    pub warnings: Vec<Warning>,
}

/// Deletion of a security domain or an applet.
#[derive(Debug)]
pub struct DeleteObjectReport {
    pub effective: DeleteObjectParams,
    pub warnings: Vec<Warning>,
}

#[derive(Debug)]
pub struct InstallAppletReport {
    pub effective: InstallAppletParams,
    pub warnings: Vec<Warning>,
}

#[derive(Debug)]
pub struct AppletTransmitReport {
    pub rapdu: Rapdu,
    pub sw: u16,
    pub effective: AppletTransmitParams,
    pub warnings: Vec<Warning>,
}

#[derive(Debug)]
pub struct SetCardStatusReport {
    pub effective: SetCardStatusParams,
    pub warnings: Vec<Warning>,
}

#[derive(Debug)]
pub struct GetCardStatusReport {
    pub state: CardLifeCycle,
    pub effective: GetCardStatusParams,
    pub warnings: Vec<Warning>,
}

#[derive(Debug)]
pub struct GetCardInventoryReport {
    pub inventory: CardInventory,
    pub effective: GetCardInventoryParams,
    pub warnings: Vec<Warning>,
}

/// The opened session and how it was opened.
#[derive(Debug)]
pub struct OpenScpReport {
    pub session: ScpSession,
    pub effective: OpenScpParams,
    pub warnings: Vec<Warning>,
}

#[derive(Debug, Clone, Copy)]
pub struct DiscoverCardParams {
    pub isd_select_strategy: IsdSelectStrategy,
    pub used_cached_isd_aid: bool,
}

#[derive(Debug, Clone, Copy, PartialEq, Eq, Structural)]
pub enum IsdSelectStrategy {
    Empty,
    ByAid,
}

#[derive(Debug)]
pub struct PutKeysParams {
    pub target_sd_aid: Aid,
    pub scp_protocol: ScpProtocol,
    pub new_kvn: u8,
    pub key_type: KeyType,
    pub key_length: u8,
    /// Three check values of three bytes: ENC, MAC, DEK.
    pub kcvs: [u8; 9],
}

#[derive(Debug, Clone, Copy, PartialEq, Eq, Structural)]
pub enum ScpProtocol {
    Scp02,
    Scp03,
}

#[derive(Debug)]
pub struct DeleteKeyParams {
    pub target_sd_aid: Aid,
    /// Every key of this version was deleted.
    pub kvn: u8,
}

#[derive(Debug)]
pub struct CreateSsdParams {
    pub ssd_aid_effective: Aid,
    pub aid_was_generated: bool,
    pub parent_sd_aid: Aid,
    pub privileges_used: [u8; 3],
    pub elf_aid_used: Aid,
    pub module_aid_used: Aid,
    pub install_params_used: Vec<u8>,
}

#[derive(Debug)]
pub struct LoadPackageParams {
    pub package_aid: Aid,
    pub load_file_size: u32,
    pub hash_value: Vec<u8>,
    pub block_count: u16,
    pub target_sd_aid: Aid,
}

#[derive(Debug)]
pub struct DeleteObjectParams {
    pub target_aid: Aid,
    pub target_kind: DeleteTargetKind,
    pub cascade_requested: DeleteCascade,
    pub cascade_used: bool,
    pub instances_removed: Vec<Aid>,
    pub elfs_removed: Vec<Aid>,
}

#[derive(Debug, Clone, Copy, PartialEq, Eq, Structural)]
pub enum DeleteTargetKind {
    Ssd,
    AppletInstance,
    ExecutableLoadFile,
}

#[derive(Debug, Clone, Copy, PartialEq, Eq, Structural)]
pub enum DeleteCascade {
    Never,
    OnlyIfEmpty,
    IfLastInstance,
    Cascade,
    Always,
}

#[derive(Debug)]
pub struct InstallAppletParams {
    pub instance_aid: Aid,
    pub package_aid_used: Aid,
    pub module_aid_used: Aid,
    pub privileges_used: [u8; 3],
    pub system_install_params: Vec<u8>,
    pub applet_install_params: Vec<u8>,
    pub parent_sd_aid: Aid,
}

#[derive(Debug)]
pub struct OpenScpParams {
    pub target_aid: Aid,
    pub target_kind: ScpTargetKind,
    pub sd_aid_used_for_keys: Aid,
    pub scp_protocol_effective: ScpProtocol,
    pub kvn_requested: u8,
    pub kvn_effective: u8,
    pub i_param_effective: u8,
    pub security_level_requested: u8,
    pub security_level_effective: u8,
    pub session_id: u64,
    pub invoker_aid_used: Aid,
}

#[derive(Debug, Clone, Copy, PartialEq, Eq, Structural)]
pub enum ScpTargetKind {
    SecurityDomainAid,
    ApplicationAid,
}

#[derive(Debug, Clone, Copy)]
pub struct AppletTransmitParams {
    pub session_id: u64,
    pub capdu_plaintext_len: u16,
    pub rapdu_plaintext_len: u16,
    pub sw: [u8; 2],
    pub sec_level: u8,
    pub scp_protocol: ScpProtocol,
}

#[derive(Debug, Clone, Copy, PartialEq, Eq, Structural)]
pub struct SetCardStatusParams {
    pub state_before: CardLifeCycle,
    pub target_state: CardLifeCycle,
    pub p1_status_type: u8,
    pub p2_state_byte: u8,
    pub was_no_op: bool,
    pub force_used: bool,
    pub irreversible: bool,
}

#[derive(Debug)]
pub struct GetCardStatusParams {
    pub raw_state_byte: u8,
    pub decoded_state: CardLifeCycle,
    pub isd_aid: Aid,
}

/// The counts are those of the kept objects.
#[derive(Debug)]
pub struct GetCardInventoryParams {
    pub isd_aid: Aid,
    pub security_domain_count: usize,
    pub application_count: usize,
    pub elf_count: usize,
    pub truncated: bool,
}

/// Card life cycle state (GPCS v2.3.1 Table 11-6).
#[derive(Debug, Clone, Copy, PartialEq, Eq, Structural)]
pub enum CardLifeCycle {
    /// `01`
    OpReady,
    /// `07`
    Initialized,
    /// `0F`
    Secured,
    /// `7F`
    CardLocked,
    /// `FF`; never a target.
    Terminated,
    /// Any other byte.
    Unknown(u8),
}

#[derive(Debug)]
pub struct ProbeParams {
    pub transport_name: TransportName,
    pub transport_capabilities: TransportCaps,
}

/// Which transport a caller uses.
#[derive(Debug, Clone, PartialEq, Eq)]
pub enum TransportName {
    Pcsc,
    Jcsim,
    User,
    Other(String),
}

/// One recorded APDU.
#[derive(Debug)]
pub struct ApduRecord {
    pub direction: ApduDirection,
    pub cla_ins_p1_p2: [u8; 4],
    pub lc: u16,
    /// Before wrapping, where a session is active.
    pub plaintext_data: Option<Capdu>,
    /// After wrapping.
    pub wire_data: Capdu,
    pub le: Option<u8>,
    pub sw: Option<[u8; 2]>,
    pub timestamp_us: u64,
}

#[derive(Debug, Clone, Copy, PartialEq, Eq, Structural)]
pub enum ApduDirection {
    CommandToCard,
    ResponseFromCard,
}

// ---- As text ----------------------------------------------------------------

impl Logged for ScpProtocol {
    open spec fn text(&self) -> Seq<char> {
        match self {
            ScpProtocol::Scp02 => "Scp02"@,
            ScpProtocol::Scp03 => "Scp03"@,
        }
    }

    fn to_text(&self) -> (r: String) {
        match self {
            ScpProtocol::Scp02 => "Scp02".to_owned(),
            ScpProtocol::Scp03 => "Scp03".to_owned(),
        }
    }
}

impl Logged for DeleteTargetKind {
    open spec fn text(&self) -> Seq<char> {
        match self {
            DeleteTargetKind::Ssd => "Ssd"@,
            DeleteTargetKind::AppletInstance => "AppletInstance"@,
            DeleteTargetKind::ExecutableLoadFile => "ExecutableLoadFile"@,
        }
    }

    fn to_text(&self) -> (r: String) {
        match self {
            DeleteTargetKind::Ssd => "Ssd".to_owned(),
            DeleteTargetKind::AppletInstance => "AppletInstance".to_owned(),
            DeleteTargetKind::ExecutableLoadFile => "ExecutableLoadFile".to_owned(),
        }
    }
}

impl Logged for DeleteCascade {
    open spec fn text(&self) -> Seq<char> {
        match self {
            DeleteCascade::Never => "Never"@,
            DeleteCascade::OnlyIfEmpty => "OnlyIfEmpty"@,
            DeleteCascade::IfLastInstance => "IfLastInstance"@,
            DeleteCascade::Cascade => "Cascade"@,
            DeleteCascade::Always => "Always"@,
        }
    }

    fn to_text(&self) -> (r: String) {
        match self {
            DeleteCascade::Never => "Never".to_owned(),
            DeleteCascade::OnlyIfEmpty => "OnlyIfEmpty".to_owned(),
            DeleteCascade::IfLastInstance => "IfLastInstance".to_owned(),
            DeleteCascade::Cascade => "Cascade".to_owned(),
            DeleteCascade::Always => "Always".to_owned(),
        }
    }
}

impl Logged for ScpTargetKind {
    open spec fn text(&self) -> Seq<char> {
        match self {
            ScpTargetKind::SecurityDomainAid => "SecurityDomainAid"@,
            ScpTargetKind::ApplicationAid => "ApplicationAid"@,
        }
    }

    fn to_text(&self) -> (r: String) {
        match self {
            ScpTargetKind::SecurityDomainAid => "SecurityDomainAid".to_owned(),
            ScpTargetKind::ApplicationAid => "ApplicationAid".to_owned(),
        }
    }
}

impl Logged for CardLifeCycle {
    open spec fn text(&self) -> Seq<char> {
        match self {
            CardLifeCycle::OpReady => "OpReady"@,
            CardLifeCycle::Initialized => "Initialized"@,
            CardLifeCycle::Secured => "Secured"@,
            CardLifeCycle::CardLocked => "CardLocked"@,
            CardLifeCycle::Terminated => "Terminated"@,
            CardLifeCycle::Unknown(byte) => tagged_text("Unknown"@, decimal(*byte as nat)),
        }
    }

    fn to_text(&self) -> (r: String) {
        match self {
            CardLifeCycle::OpReady => "OpReady".to_owned(),
            CardLifeCycle::Initialized => "Initialized".to_owned(),
            CardLifeCycle::Secured => "Secured".to_owned(),
            CardLifeCycle::CardLocked => "CardLocked".to_owned(),
            CardLifeCycle::Terminated => "Terminated".to_owned(),
            CardLifeCycle::Unknown(byte) => tagged("Unknown", decimal_of(*byte as u64).as_str()),
        }
    }
}

/// The fields of a logged [`PutKeysParams`].
pub open spec fn put_keys_params_fields(v: PutKeysParams) -> Seq<Seq<char>> {
    seq![
        field_text("target_sd_aid"@, v.target_sd_aid.text()),
        field_text("scp_protocol"@, v.scp_protocol.text()),
        field_text("new_kvn"@, literal_hex(v.new_kvn)),
        field_text("key_type"@, v.key_type.text()),
        field_text("key_length"@, decimal(v.key_length as nat)),
        field_text("kcvs"@, quoted_hex(v.kcvs@)),
    ]
}

impl Logged for PutKeysParams {
    open spec fn text(&self) -> Seq<char> {
        record_text("PutKeysParams"@, put_keys_params_fields(*self))
    }

    fn to_text(&self) -> (r: String) {
        let fields: Vec<String> = vec![
            field("target_sd_aid", self.target_sd_aid.to_text()),
            field("scp_protocol", self.scp_protocol.to_text()),
            field("new_kvn", hex_literal(self.new_kvn)),
            field("key_type", self.key_type.to_text()),
            field("key_length", decimal_of(self.key_length as u64)),
            field("kcvs", hex_quoted(self.kcvs.as_slice())),
        ];
        assert(texts(fields@) =~= put_keys_params_fields(*self));
        record("PutKeysParams", &fields)
    }
}

/// The fields of a logged [`DeleteKeyParams`].
pub open spec fn delete_key_params_fields(v: DeleteKeyParams) -> Seq<Seq<char>> {
    seq![
        field_text("target_sd_aid"@, v.target_sd_aid.text()),
        field_text("kvn"@, literal_hex(v.kvn)),
    ]
}

impl Logged for DeleteKeyParams {
    open spec fn text(&self) -> Seq<char> {
        record_text("DeleteKeyParams"@, delete_key_params_fields(*self))
    }

    fn to_text(&self) -> (r: String) {
        let fields: Vec<String> = vec![
            field("target_sd_aid", self.target_sd_aid.to_text()),
            field("kvn", hex_literal(self.kvn)),
        ];
        assert(texts(fields@) =~= delete_key_params_fields(*self));
        record("DeleteKeyParams", &fields)
    }
}

/// The fields of a logged [`CreateSsdParams`].
pub open spec fn create_ssd_params_fields(v: CreateSsdParams) -> Seq<Seq<char>> {
    seq![
        field_text("ssd_aid_effective"@, v.ssd_aid_effective.text()),
        field_text("aid_was_generated"@, bool_text(v.aid_was_generated)),
        field_text("parent_sd_aid"@, v.parent_sd_aid.text()),
        field_text("privileges_used"@, quoted_hex(v.privileges_used@)),
        field_text("elf_aid_used"@, v.elf_aid_used.text()),
        field_text("module_aid_used"@, v.module_aid_used.text()),
        field_text("install_params_used"@, quoted_hex(v.install_params_used@)),
    ]
}

impl Logged for CreateSsdParams {
    open spec fn text(&self) -> Seq<char> {
        record_text("CreateSsdParams"@, create_ssd_params_fields(*self))
    }

    fn to_text(&self) -> (r: String) {
        let fields: Vec<String> = vec![
            field("ssd_aid_effective", self.ssd_aid_effective.to_text()),
            field("aid_was_generated", bool_of(self.aid_was_generated)),
            field("parent_sd_aid", self.parent_sd_aid.to_text()),
            field("privileges_used", hex_quoted(self.privileges_used.as_slice())),
            field("elf_aid_used", self.elf_aid_used.to_text()),
            field("module_aid_used", self.module_aid_used.to_text()),
            field("install_params_used", hex_quoted(self.install_params_used.as_slice())),
        ];
        assert(texts(fields@) =~= create_ssd_params_fields(*self));
        record("CreateSsdParams", &fields)
    }
}

/// The fields of a logged [`LoadPackageParams`].
pub open spec fn load_package_params_fields(v: LoadPackageParams) -> Seq<Seq<char>> {
    seq![
        field_text("package_aid"@, v.package_aid.text()),
        field_text("load_file_size"@, decimal(v.load_file_size as nat)),
        field_text("hash_value"@, quoted_hex(v.hash_value@)),
        field_text("block_count"@, decimal(v.block_count as nat)),
        field_text("target_sd_aid"@, v.target_sd_aid.text()),
    ]
}

impl Logged for LoadPackageParams {
    open spec fn text(&self) -> Seq<char> {
        record_text("LoadPackageParams"@, load_package_params_fields(*self))
    }

    fn to_text(&self) -> (r: String) {
        let fields: Vec<String> = vec![
            field("package_aid", self.package_aid.to_text()),
            field("load_file_size", decimal_of(self.load_file_size as u64)),
            field("hash_value", hex_quoted(self.hash_value.as_slice())),
            field("block_count", decimal_of(self.block_count as u64)),
            field("target_sd_aid", self.target_sd_aid.to_text()),
        ];
        assert(texts(fields@) =~= load_package_params_fields(*self));
        record("LoadPackageParams", &fields)
    }
}

/// The fields of a logged [`DeleteObjectParams`].
pub open spec fn delete_object_params_fields(v: DeleteObjectParams) -> Seq<Seq<char>> {
    seq![
        field_text("target_aid"@, v.target_aid.text()),
        field_text("target_kind"@, v.target_kind.text()),
        field_text("cascade_requested"@, v.cascade_requested.text()),
        field_text("cascade_used"@, bool_text(v.cascade_used)),
        field_text("instances_removed"@, v.instances_removed.text()),
        field_text("elfs_removed"@, v.elfs_removed.text()),
    ]
}

impl Logged for DeleteObjectParams {
    open spec fn text(&self) -> Seq<char> {
        record_text("DeleteObjectParams"@, delete_object_params_fields(*self))
    }

    fn to_text(&self) -> (r: String) {
        let fields: Vec<String> = vec![
            field("target_aid", self.target_aid.to_text()),
            field("target_kind", self.target_kind.to_text()),
            field("cascade_requested", self.cascade_requested.to_text()),
            field("cascade_used", bool_of(self.cascade_used)),
            field("instances_removed", self.instances_removed.to_text()),
            field("elfs_removed", self.elfs_removed.to_text()),
        ];
        assert(texts(fields@) =~= delete_object_params_fields(*self));
        record("DeleteObjectParams", &fields)
    }
}

/// The fields of a logged [`InstallAppletParams`].
pub open spec fn install_applet_params_fields(v: InstallAppletParams) -> Seq<Seq<char>> {
    seq![
        field_text("instance_aid"@, v.instance_aid.text()),
        field_text("package_aid_used"@, v.package_aid_used.text()),
        field_text("module_aid_used"@, v.module_aid_used.text()),
        field_text("privileges_used"@, quoted_hex(v.privileges_used@)),
        field_text("system_install_params"@, quoted_hex(v.system_install_params@)),
        field_text("applet_install_params"@, quoted_hex(v.applet_install_params@)),
        field_text("parent_sd_aid"@, v.parent_sd_aid.text()),
    ]
}

impl Logged for InstallAppletParams {
    open spec fn text(&self) -> Seq<char> {
        record_text("InstallAppletParams"@, install_applet_params_fields(*self))
    }

    fn to_text(&self) -> (r: String) {
        let fields: Vec<String> = vec![
            field("instance_aid", self.instance_aid.to_text()),
            field("package_aid_used", self.package_aid_used.to_text()),
            field("module_aid_used", self.module_aid_used.to_text()),
            field("privileges_used", hex_quoted(self.privileges_used.as_slice())),
            field("system_install_params", hex_quoted(self.system_install_params.as_slice())),
            field("applet_install_params", hex_quoted(self.applet_install_params.as_slice())),
            field("parent_sd_aid", self.parent_sd_aid.to_text()),
        ];
        assert(texts(fields@) =~= install_applet_params_fields(*self));
        record("InstallAppletParams", &fields)
    }
}

/// The fields of a logged [`OpenScpParams`].
pub open spec fn open_scp_params_fields(v: OpenScpParams) -> Seq<Seq<char>> {
    seq![
        field_text("target_aid"@, v.target_aid.text()),
        field_text("target_kind"@, v.target_kind.text()),
        field_text("sd_aid_used_for_keys"@, v.sd_aid_used_for_keys.text()),
        field_text("scp_protocol_effective"@, v.scp_protocol_effective.text()),
        field_text("kvn_requested"@, literal_hex(v.kvn_requested)),
        field_text("kvn_effective"@, literal_hex(v.kvn_effective)),
        field_text("i_param_effective"@, literal_hex(v.i_param_effective)),
        field_text("security_level_requested"@, literal_hex(v.security_level_requested)),
        field_text("security_level_effective"@, literal_hex(v.security_level_effective)),
        field_text("session_id"@, decimal(v.session_id as nat)),
        field_text("invoker_aid_used"@, v.invoker_aid_used.text()),
    ]
}

impl Logged for OpenScpParams {
    open spec fn text(&self) -> Seq<char> {
        record_text("OpenScpParams"@, open_scp_params_fields(*self))
    }

    fn to_text(&self) -> (r: String) {
        let fields: Vec<String> = vec![
            field("target_aid", self.target_aid.to_text()),
            field("target_kind", self.target_kind.to_text()),
            field("sd_aid_used_for_keys", self.sd_aid_used_for_keys.to_text()),
            field("scp_protocol_effective", self.scp_protocol_effective.to_text()),
            field("kvn_requested", hex_literal(self.kvn_requested)),
            field("kvn_effective", hex_literal(self.kvn_effective)),
            field("i_param_effective", hex_literal(self.i_param_effective)),
            field("security_level_requested", hex_literal(self.security_level_requested)),
            field("security_level_effective", hex_literal(self.security_level_effective)),
            field("session_id", decimal_of(self.session_id as u64)),
            field("invoker_aid_used", self.invoker_aid_used.to_text()),
        ];
        assert(texts(fields@) =~= open_scp_params_fields(*self));
        record("OpenScpParams", &fields)
    }
}

/// The fields of a logged [`AppletTransmitParams`].
pub open spec fn applet_transmit_params_fields(v: AppletTransmitParams) -> Seq<Seq<char>> {
    seq![
        field_text("session_id"@, decimal(v.session_id as nat)),
        field_text("capdu_plaintext_len"@, decimal(v.capdu_plaintext_len as nat)),
        field_text("rapdu_plaintext_len"@, decimal(v.rapdu_plaintext_len as nat)),
        field_text("sw"@, quoted_hex(v.sw@)),
        field_text("sec_level"@, decimal(v.sec_level as nat)),
        field_text("scp_protocol"@, v.scp_protocol.text()),
    ]
}

impl Logged for AppletTransmitParams {
    open spec fn text(&self) -> Seq<char> {
        record_text("AppletTransmitParams"@, applet_transmit_params_fields(*self))
    }

    fn to_text(&self) -> (r: String) {
        let fields: Vec<String> = vec![
            field("session_id", decimal_of(self.session_id as u64)),
            field("capdu_plaintext_len", decimal_of(self.capdu_plaintext_len as u64)),
            field("rapdu_plaintext_len", decimal_of(self.rapdu_plaintext_len as u64)),
            field("sw", hex_quoted(self.sw.as_slice())),
            field("sec_level", decimal_of(self.sec_level as u64)),
            field("scp_protocol", self.scp_protocol.to_text()),
        ];
        assert(texts(fields@) =~= applet_transmit_params_fields(*self));
        record("AppletTransmitParams", &fields)
    }
}

/// The fields of a logged [`GetCardStatusParams`].
pub open spec fn get_card_status_params_fields(v: GetCardStatusParams) -> Seq<Seq<char>> {
    seq![
        field_text("raw_state_byte"@, decimal(v.raw_state_byte as nat)),
        field_text("decoded_state"@, v.decoded_state.text()),
        field_text("isd_aid"@, v.isd_aid.text()),
    ]
}

impl Logged for GetCardStatusParams {
    open spec fn text(&self) -> Seq<char> {
        record_text("GetCardStatusParams"@, get_card_status_params_fields(*self))
    }

    fn to_text(&self) -> (r: String) {
        let fields: Vec<String> = vec![
            field("raw_state_byte", decimal_of(self.raw_state_byte as u64)),
            field("decoded_state", self.decoded_state.to_text()),
            field("isd_aid", self.isd_aid.to_text()),
        ];
        assert(texts(fields@) =~= get_card_status_params_fields(*self));
        record("GetCardStatusParams", &fields)
    }
}

/// The fields of a logged [`GetCardInventoryParams`].
pub open spec fn get_card_inventory_params_fields(v: GetCardInventoryParams) -> Seq<Seq<char>> {
    seq![
        field_text("isd_aid"@, v.isd_aid.text()),
        field_text("security_domain_count"@, decimal(v.security_domain_count as nat)),
        field_text("application_count"@, decimal(v.application_count as nat)),
        field_text("elf_count"@, decimal(v.elf_count as nat)),
        field_text("truncated"@, bool_text(v.truncated)),
    ]
}

impl Logged for GetCardInventoryParams {
    open spec fn text(&self) -> Seq<char> {
        record_text("GetCardInventoryParams"@, get_card_inventory_params_fields(*self))
    }

    fn to_text(&self) -> (r: String) {
        let fields: Vec<String> = vec![
            field("isd_aid", self.isd_aid.to_text()),
            field("security_domain_count", decimal_of(self.security_domain_count as u64)),
            field("application_count", decimal_of(self.application_count as u64)),
            field("elf_count", decimal_of(self.elf_count as u64)),
            field("truncated", bool_of(self.truncated)),
        ];
        assert(texts(fields@) =~= get_card_inventory_params_fields(*self));
        record("GetCardInventoryParams", &fields)
    }
}

/// The fields of a logged [`PutKeysReport`].
pub open spec fn put_keys_report_fields(v: PutKeysReport) -> Seq<Seq<char>> {
    seq![
        field_text("effective"@, v.effective.text()),
        field_text("warnings"@, v.warnings.text()),
    ]
}

impl Logged for PutKeysReport {
    open spec fn text(&self) -> Seq<char> {
        record_text("PutKeysReport"@, put_keys_report_fields(*self))
    }

    fn to_text(&self) -> (r: String) {
        let fields: Vec<String> = vec![
            field("effective", self.effective.to_text()),
            field("warnings", self.warnings.to_text()),
        ];
        assert(texts(fields@) =~= put_keys_report_fields(*self));
        record("PutKeysReport", &fields)
    }
}

/// The fields of a logged [`DeleteKeyReport`].
pub open spec fn delete_key_report_fields(v: DeleteKeyReport) -> Seq<Seq<char>> {
    seq![
        field_text("effective"@, v.effective.text()),
        field_text("warnings"@, v.warnings.text()),
    ]
}

impl Logged for DeleteKeyReport {
    open spec fn text(&self) -> Seq<char> {
        record_text("DeleteKeyReport"@, delete_key_report_fields(*self))
    }

    fn to_text(&self) -> (r: String) {
        let fields: Vec<String> = vec![
            field("effective", self.effective.to_text()),
            field("warnings", self.warnings.to_text()),
        ];
        assert(texts(fields@) =~= delete_key_report_fields(*self));
        record("DeleteKeyReport", &fields)
    }
}

/// The fields of a logged [`CreateSsdReport`].
pub open spec fn create_ssd_report_fields(v: CreateSsdReport) -> Seq<Seq<char>> {
    seq![
        field_text("effective"@, v.effective.text()),
        field_text("warnings"@, v.warnings.text()),
    ]
}

impl Logged for CreateSsdReport {
    open spec fn text(&self) -> Seq<char> {
        record_text("CreateSsdReport"@, create_ssd_report_fields(*self))
    }

    fn to_text(&self) -> (r: String) {
        let fields: Vec<String> = vec![
            field("effective", self.effective.to_text()),
            field("warnings", self.warnings.to_text()),
        ];
        assert(texts(fields@) =~= create_ssd_report_fields(*self));
        record("CreateSsdReport", &fields)
    }
}

/// The fields of a logged [`LoadPackageReport`].
pub open spec fn load_package_report_fields(v: LoadPackageReport) -> Seq<Seq<char>> {
    seq![
        field_text("effective"@, v.effective.text()),
        field_text("warnings"@, v.warnings.text()),
    ]
}

impl Logged for LoadPackageReport {
    open spec fn text(&self) -> Seq<char> {
        record_text("LoadPackageReport"@, load_package_report_fields(*self))
    }

    fn to_text(&self) -> (r: String) {
        let fields: Vec<String> = vec![
            field("effective", self.effective.to_text()),
            field("warnings", self.warnings.to_text()),
        ];
        assert(texts(fields@) =~= load_package_report_fields(*self));
        record("LoadPackageReport", &fields)
    }
}

/// The fields of a logged [`DeleteObjectReport`].
pub open spec fn delete_object_report_fields(v: DeleteObjectReport) -> Seq<Seq<char>> {
    seq![
        field_text("effective"@, v.effective.text()),
        field_text("warnings"@, v.warnings.text()),
    ]
}

impl Logged for DeleteObjectReport {
    open spec fn text(&self) -> Seq<char> {
        record_text("DeleteObjectReport"@, delete_object_report_fields(*self))
    }

    fn to_text(&self) -> (r: String) {
        let fields: Vec<String> = vec![
            field("effective", self.effective.to_text()),
            field("warnings", self.warnings.to_text()),
        ];
        assert(texts(fields@) =~= delete_object_report_fields(*self));
        record("DeleteObjectReport", &fields)
    }
}

/// The fields of a logged [`InstallAppletReport`].
pub open spec fn install_applet_report_fields(v: InstallAppletReport) -> Seq<Seq<char>> {
    seq![
        field_text("effective"@, v.effective.text()),
        field_text("warnings"@, v.warnings.text()),
    ]
}

impl Logged for InstallAppletReport {
    open spec fn text(&self) -> Seq<char> {
        record_text("InstallAppletReport"@, install_applet_report_fields(*self))
    }

    fn to_text(&self) -> (r: String) {
        let fields: Vec<String> = vec![
            field("effective", self.effective.to_text()),
            field("warnings", self.warnings.to_text()),
        ];
        assert(texts(fields@) =~= install_applet_report_fields(*self));
        record("InstallAppletReport", &fields)
    }
}

/// The fields of a logged [`AppletTransmitReport`].
pub open spec fn applet_transmit_report_fields(v: AppletTransmitReport) -> Seq<Seq<char>> {
    seq![
        field_text("rapdu"@, quoted_hex(rapdu_bytes(v.rapdu))),
        field_text("sw"@, word_literal_hex(v.sw)),
        field_text("effective"@, v.effective.text()),
        field_text("warnings"@, v.warnings.text()),
    ]
}

impl Logged for AppletTransmitReport {
    open spec fn text(&self) -> Seq<char> {
        record_text("AppletTransmitReport"@, applet_transmit_report_fields(*self))
    }

    fn to_text(&self) -> (r: String) {
        let fields: Vec<String> = vec![
            field("rapdu", hex_quoted(rapdu_slice(&self.rapdu))),
            field("sw", hex_word(self.sw)),
            field("effective", self.effective.to_text()),
            field("warnings", self.warnings.to_text()),
        ];
        assert(texts(fields@) =~= applet_transmit_report_fields(*self));
        record("AppletTransmitReport", &fields)
    }
}

/// The fields of a logged [`GetCardStatusReport`].
pub open spec fn get_card_status_report_fields(v: GetCardStatusReport) -> Seq<Seq<char>> {
    seq![
        field_text("state"@, v.state.text()),
        field_text("effective"@, v.effective.text()),
        field_text("warnings"@, v.warnings.text()),
    ]
}

impl Logged for GetCardStatusReport {
    open spec fn text(&self) -> Seq<char> {
        record_text("GetCardStatusReport"@, get_card_status_report_fields(*self))
    }

    fn to_text(&self) -> (r: String) {
        let fields: Vec<String> = vec![
            field("state", self.state.to_text()),
            field("effective", self.effective.to_text()),
            field("warnings", self.warnings.to_text()),
        ];
        assert(texts(fields@) =~= get_card_status_report_fields(*self));
        record("GetCardStatusReport", &fields)
    }
}

/// The fields of a logged [`GetCardInventoryReport`].
pub open spec fn get_card_inventory_report_fields(v: GetCardInventoryReport) -> Seq<Seq<char>> {
    seq![
        field_text("inventory"@, v.inventory.text()),
        field_text("effective"@, v.effective.text()),
        field_text("warnings"@, v.warnings.text()),
    ]
}

impl Logged for GetCardInventoryReport {
    open spec fn text(&self) -> Seq<char> {
        record_text("GetCardInventoryReport"@, get_card_inventory_report_fields(*self))
    }

    fn to_text(&self) -> (r: String) {
        let fields: Vec<String> = vec![
            field("inventory", self.inventory.to_text()),
            field("effective", self.effective.to_text()),
            field("warnings", self.warnings.to_text()),
        ];
        assert(texts(fields@) =~= get_card_inventory_report_fields(*self));
        record("GetCardInventoryReport", &fields)
    }
}

} // verus!
