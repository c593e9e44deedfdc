//! Fixed capacities shared by every module.
//!
//! The sizes follow the short-APDU limits of ISO/IEC 7816-4 and the object
//! counts that a GlobalPlatform card is expected to report.
use vstd::prelude::*;

verus! {

/// Longest application identifier: a 5-byte RID and a PIX of up to 11 bytes.
pub const AID_MAX: usize = 16;

/// Longest short command APDU: header, `Lc`, 255 data bytes and `Le`.
pub const CAPDU_MAX: usize = 261;

/// Longest short response APDU: 256 data bytes and the status word.
pub const RAPDU_MAX: usize = 258;

/// Longest answer-to-reset or answer-to-select.
pub const ATR_ATS_MAX: usize = 255;

/// Longest Load File Data Block hash.
pub const HASH_MAX: usize = 64;

/// Longest raw GET DATA answer that is kept for diagnostics.
pub const GETDATA_RAW_MAX: usize = 256;

/// Longest install parameter field.
pub const INSTALL_PARAMS_MAX: usize = 255;

/// Longest issuer identification number.
pub const IIN_MAX: usize = 16;

/// Longest card image number.
pub const CIN_MAX: usize = 16;

/// Longest static key (AES-256).
pub const KEY_BYTES_MAX: usize = 32;

/// Longest encrypted key block in a PUT KEY command.
pub const ENC_KEY_BLOCK_MAX: usize = 32;

/// Length of a key check value.
pub const KCV_LEN: usize = 3;

/// Length of the SCP03 MAC chaining value.
pub const MAC_CHAIN_LEN: usize = 16;

/// Longest SCP03 challenge or cryptogram (the 16-byte mode).
pub const SCP03_S16_MAX: usize = 16;

/// Secure channel variants that one card may advertise.
pub const MAX_SCP_VARIANTS: usize = 8;

/// Key version numbers that one security domain may report.
pub const MAX_KEYSETS: usize = 16;

/// Keys that one key version may report.
pub const MAX_KEYS_PER_SET: usize = 16;

/// Cipher algorithms that one card may advertise.
pub const MAX_CIPHERS: usize = 16;

/// Privilege bytes kept from the card capability information.
pub const MAX_PRIVILEGE_BYTES: usize = 8;

/// Security domains kept in an inventory.
pub const MAX_SDS: usize = 8;

/// Application instances kept in an inventory.
pub const MAX_APPLETS: usize = 48;

/// Executable load files kept in an inventory.
pub const MAX_ELFS: usize = 32;

/// Registry entries kept from one GET STATUS scope.
pub const MAX_REGISTRY_ENTRIES: usize = 64;

/// GET STATUS continuations followed within one scope.
pub const MAX_STATUS_PAGES: usize = 16;

/// Bytes gathered over all continuations of one GET STATUS scope
/// (`MAX_STATUS_PAGES * RAPDU_MAX`).
pub const MAX_STATUS_SCOPE_BYTES: usize = 4128;

/// Executable modules kept for one load file.
pub const MAX_MODULES_PER_ELF: usize = 16;

/// Objects that one delete may report as removed.
pub const MAX_REMOVED_OBJECTS: usize = 32;

/// Imported packages kept from a CAP file.
pub const MAX_CAP_IMPORTS: usize = 16;

/// Applets kept from a CAP file.
pub const MAX_CAP_APPLETS: usize = 8;

/// Warnings that one report may carry.
pub const MAX_WARNINGS: usize = 16;

/// Card quirks that one discovery may note.
pub const MAX_QUIRKS: usize = 8;

/// Key types named in a key-type refusal.
pub const MAX_KEYTYPE_SUPPORTED: usize = 16;

/// Top-level TLV objects accepted in one parse.
pub const MAX_TLVS: usize = 64;

/// Longest caller-supplied transport name.
pub const TRANSPORT_NAME_MAX: usize = 16;

/// Longest warning detail.
pub const WARNING_DETAIL_MAX: usize = 128;

/// Longest error detail.
pub const OTHER_DETAIL_MAX: usize = 64;

/// Load File Data Block bytes carried by one LOAD command. A wrapped block
/// still fits a short APDU: 223 bytes pad to 224 for SCP03 encryption and leave
/// room for a 16-byte MAC.
pub const LOAD_BLOCK_DATA: usize = 223;

/// Size of the DEFLATE history window.
pub const INFLATE_WINDOW: usize = 32768;

} // verus!
