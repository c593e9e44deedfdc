//! Errors and warnings of the library.
use vstd::prelude::*;
use vstd::string::StringSliceAdditionalSpecFns;

use crate::buffers::Field;
use crate::cap::CapError;
use crate::command::BuildError;
use crate::limits::OTHER_DETAIL_MAX;
use crate::tlv::TlvError;
use crate::util::text::{
    decimal, decimal_of, field, field_text, record, record_text, tagged, tagged_text, texts, Logged,
};

verus! {

/// Why a workflow failed.
#[derive(Debug)]
#[non_exhaustive]
pub enum ScllError {
    // Transport.
    TransportUnavailable,
    CardRemoved,
    ReaderGone,
    Timeout,
    // Secure channel.
    ScpProtocolUnsupported,
    NoCommonSecurityLevel,
    KvnMismatch,
    CardCryptogramFail,
    CardChallengeFail,
    ExternalAuthFail { sw: u16 },
    SecurityStatusNotSatisfied,
    NoOpenChannel,
    // Keys.
    KeyNotFound,
    KeyTypeUnsupported { offered: u8, supported: Field },
    KeyCheckValueMismatch,
    CannotDeleteActiveKeyset,
    // Content.
    InvalidAid { len: usize },
    AidAlreadyExists,
    PackageAidExists,
    PackageNotFound,
    ResidentSdNotFound,
    LoadTooLarge,
    SsdHasApplets,
    ElfHasOtherInstances,
    // Life cycle.
    CardNotUsable,
    IllegalLifecycleTransition,
    ConditionsNotSatisfied,
    IsdAidNotFound,
    SessionNotIsd,
    TargetNoLongerExists,
    TerminateOutOfScope,
    // Privileges.
    ParentLacksAm,
    UnsupportedPrivilege,
    /// A status word that has no more specific case.
    Card { sw: u16 },
    /// A card answer that is no well-formed TLV structure.
    MalformedResponse(TlvError),
    /// A command that does not fit a short APDU.
    Build(BuildError),
    /// A CAP file that cannot be used.
    Cap(CapError),
    /// A failure of the cryptographic backend.
    Backend(BackendError),
}

/// What a status word means where no command gives it a meaning of its own.
pub open spec fn general_sw(sw: u16) -> ScllError {
    if sw == 0x6982 {
        ScllError::SecurityStatusNotSatisfied
    } else if sw == 0x6985 {
        ScllError::ConditionsNotSatisfied
    } else {
        ScllError::Card { sw }
    }
}

impl ScllError {
    /// Maps a status word by the general error conditions alone (GPCS v2.3.1
    /// Table 11-10). Every word maps to exactly one error; whatever is neither
    /// `6982` nor `6985` is carried verbatim.
    pub fn from_general_sw(sw: u16) -> (r: ScllError)
        ensures
            r == general_sw(sw),
    {
        match sw {
            0x6982 => ScllError::SecurityStatusNotSatisfied,
            0x6985 => ScllError::ConditionsNotSatisfied,
            other => ScllError::Card { sw: other },
        }
    }
}

/// The general mapping loses nothing: different status words give different
/// errors, and only `6982` and `6985` are not carried verbatim.
pub proof fn law_general_sw_is_total_and_injective(a: u16, b: u16)
    ensures
        general_sw(a) == general_sw(b) ==> a == b,
        general_sw(a) is SecurityStatusNotSatisfied <==> a == 0x6982,
        general_sw(a) is ConditionsNotSatisfied <==> a == 0x6985,
        general_sw(a) matches ScllError::Card { sw } ==> sw == a,
        general_sw(a) is SecurityStatusNotSatisfied || general_sw(a) is ConditionsNotSatisfied
            || general_sw(a) is Card,
{
}

/// A remark that a report carries beside its result.
#[derive(Debug, Clone)]
pub struct Warning {
    pub kind: WarningKind,
    pub detail: String,
}

/// The kinds of [`Warning`].
#[derive(Debug, Clone, Copy, PartialEq, Eq, Structural)]
#[non_exhaustive]
pub enum WarningKind {
    CardRecognitionDataMissing,
    KeyInformationTemplateMissing,
    CardCapabilityInfoMissing,
    UnknownLifecycleByte(u8),
    GetStatusParseFailed,
    LifecycleNoOp,
    /// An inventory reached a capacity bound; it is a beginning of the whole.
    InventoryTruncated,
}

/// The kinds of a list of warnings, which carry no detail.
pub open spec fn plain_warnings(warnings: Seq<Warning>, kinds: Seq<WarningKind>) -> bool {
    &&& warnings.len() == kinds.len()
    &&& forall|i: int|
        0 <= i < kinds.len() ==> (#[trigger] warnings[i]).kind == kinds[i]
            && warnings[i].detail@.len() == 0
}

impl Warning {
    /// A warning without detail.
    pub fn plain(kind: WarningKind) -> (r: Warning)
        ensures
            r.kind == kind,
            r.detail@.len() == 0,
    {
        Warning { kind, detail: String::new() }
    }
}

impl Logged for WarningKind {
    open spec fn text(&self) -> Seq<char> {
        match self {
            WarningKind::CardRecognitionDataMissing => "CardRecognitionDataMissing"@,
            WarningKind::KeyInformationTemplateMissing => "KeyInformationTemplateMissing"@,
            WarningKind::CardCapabilityInfoMissing => "CardCapabilityInfoMissing"@,
            WarningKind::GetStatusParseFailed => "GetStatusParseFailed"@,
            WarningKind::LifecycleNoOp => "LifecycleNoOp"@,
            WarningKind::InventoryTruncated => "InventoryTruncated"@,
            WarningKind::UnknownLifecycleByte(byte) => tagged_text(
                "UnknownLifecycleByte"@,
                decimal(*byte as nat),
            ),
        }
    }

    fn to_text(&self) -> (r: String) {
        match self {
            WarningKind::CardRecognitionDataMissing => "CardRecognitionDataMissing".to_owned(),
            WarningKind::KeyInformationTemplateMissing => {
                "KeyInformationTemplateMissing".to_owned()
            },
            WarningKind::CardCapabilityInfoMissing => "CardCapabilityInfoMissing".to_owned(),
            WarningKind::GetStatusParseFailed => "GetStatusParseFailed".to_owned(),
            WarningKind::LifecycleNoOp => "LifecycleNoOp".to_owned(),
            WarningKind::InventoryTruncated => "InventoryTruncated".to_owned(),
            WarningKind::UnknownLifecycleByte(byte) => tagged(
                "UnknownLifecycleByte",
                decimal_of(*byte as u64).as_str(),
            ),
        }
    }
}

/// The fields of a logged [`Warning`].
pub open spec fn warning_fields(v: Warning) -> Seq<Seq<char>> {
    seq![
        field_text("kind"@, v.kind.text()),
        field_text("detail"@, v.detail.text()),
    ]
}

impl Logged for Warning {
    open spec fn text(&self) -> Seq<char> {
        record_text("Warning"@, warning_fields(*self))
    }

    fn to_text(&self) -> (r: String) {
        let fields: Vec<String> = vec![
            field("kind", self.kind.to_text()),
            field("detail", self.detail.to_text()),
        ];
        assert(texts(fields@) =~= warning_fields(*self));
        record("Warning", &fields)
    }
}

/// A short text that goes with a failure.
#[derive(Debug, Clone)]
pub enum Detail {
    /// A text of the program itself.
    Fixed(&'static str),
    /// A text that was made at run time.
    Made(String),
}

/// The characters of a detail.
pub open spec fn detail_text(d: Detail) -> Seq<char> {
    match d {
        Detail::Fixed(text) => text@,
        Detail::Made(text) => text@,
    }
}

impl Detail {
    /// A text made at run time; one that is too long is left out.
    pub fn made(text: &str) -> (r: Detail)
        ensures
            detail_text(r) == (if text.spec_bytes().len() <= OTHER_DETAIL_MAX {
                text@
            } else {
                Seq::empty()
            }),
    {
        if text.as_bytes().len() <= OTHER_DETAIL_MAX {
            Detail::Made(text.to_owned())
        } else {
            Detail::Made(String::new())
        }
    }

    /// The text.
    pub fn as_str(&self) -> (r: &str)
        ensures
            r@ == detail_text(*self),
    {
        match self {
            Detail::Fixed(text) => text,
            Detail::Made(text) => text.as_str(),
        }
    }
}

/// Failure of a cryptographic backend, with a short text that names no key.
#[derive(Debug, Clone)]
#[non_exhaustive]
pub enum BackendError {
    KeyImport(Detail),
    KeyGen(Detail),
    Crypto(Detail),
    Rng(Detail),
    Unsupported(Detail),
}

} // verus!
