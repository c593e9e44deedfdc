//! What the workflows make of the answers of a card.
use scll::backend::{KeyBackend, KeyHandle, KeyKind};
use scll::buffers::Rapdu;
use scll::cap::InflateCtx;
use scll::command::delete::{delete_key, delete_object};
use scll::command::get_status::get_status_p2;
use scll::command::install::{install_for_install_make_selectable, install_for_load, PrivLen};
use scll::command::load::load_block;
use scll::command::put_key::{put_key, KeyBlock};
use scll::command::select::select_by_aid;
use scll::command::set_status::set_card_status as set_status_command;
use scll::command::BuildError;
use scll::error::{BackendError, ScllError, WarningKind};
use scll::model::{DiscoveryWarning, KeyType, ScpVariant};
use scll::report::{
    CardLifeCycle, DeleteCascade, DeleteTargetKind, ScpProtocol, ScpTargetKind, TransportName,
};
use scll::scp::ScpSession;
use scll::support::{fixtures, MockTransport, StubBackend, Trace};
use scll::transport::{AtrAts, Transport, TransportCaps, TransportError, TransportProtocol};
use scll::workflow::card_status::status_report;
use scll::workflow::discover::{cplc_value, priv_len_from_cplc, resolve_isd_aid};
use scll::workflow::keys::verify_kcv_echo;
use scll::workflow::load::{LoadPackageArgs, MAX_LOAD_BYTES};
use scll::workflow::session::{map_transport, split_sw};
use scll::workflow::transmit::transmit as send_apdu;
use scll::workflow::{
    create_ssd, delete_applet, delete_sd_keyset, delete_ssd, discover_card, get_card_inventory,
    get_card_status, install_applet, load_package, open_scp, probe, put_sd_keys, set_card_status,
    CreateSsdArgs, DeleteAppletArgs, InstallAppletArgs, NewKeyset, OpenScpArgs, PutSdKeysArgs,
    SdKeys, SetCardStatusArgs,
};

const ISD: [u8; 8] = [0xA0, 0x00, 0x00, 0x01, 0x51, 0x00, 0x00, 0x00];
const SSD: [u8; 8] = [0xA0, 0x00, 0x00, 0x01, 0x51, 0x00, 0x01, 0x01];
const ELF: [u8; 7] = [0xA0, 0x00, 0x00, 0x00, 0x62, 0x03, 0x01];
const MODULE: [u8; 8] = [0xA0, 0x00, 0x00, 0x00, 0x62, 0x03, 0x01, 0x0A];

const OK: u16 = 0x9000;
const KCV: [u8; 3] = [0xC0, 0xC1, 0xC2];
const CARD: [u8; 8] = [0xAA; 8];

fn keys() -> SdKeys {
    SdKeys { enc: KeyHandle::new(1), mac: KeyHandle::new(2), dek: KeyHandle::new(3) }
}

fn args<'a>(advertised: &'a [ScpVariant], target: &'a [u8], kvn: u8, level: u8) -> OpenScpArgs<'a> {
    OpenScpArgs {
        target_aid: target,
        target_kind: ScpTargetKind::SecurityDomainAid,
        sd_keys: keys(),
        advertised,
        force_scp: None,
        kvn,
        requested_level: level,
    }
}

fn selected(aid: &[u8]) -> Trace {
    Trace::new().step(
        select_by_aid(aid).unwrap().as_slice(),
        &fixtures::rapdu(&fixtures::fci_with_aid(aid), OK),
    )
}

fn update03() -> Vec<u8> {
    scll::scp::scp03::iu_command(0x00, &[0u8; 8]).unwrap().as_slice().to_vec()
}

fn update02() -> Vec<u8> {
    scll::scp::scp02::iu_command(0x00, 0x00, &[0u8; 8]).unwrap().as_slice().to_vec()
}

fn authenticate(level: u8) -> Vec<u8> {
    let mut v = vec![0x84, 0x82, level, 0x00, 0x08];
    v.extend_from_slice(&[0xBB; 8]);
    v
}

/// A card with SCP03 up to the open channel.
fn opened03() -> Trace {
    selected(&ISD)
        .step(&update03(), &fixtures::rapdu(&fixtures::iu_scp03(0x30, 0x70, [9; 8], CARD), OK))
        .step(&authenticate(0x33), &fixtures::sw(OK))
}

/// A card with SCP02 up to the open channel.
fn opened02(level: u8) -> Trace {
    selected(&ISD)
        .step(
            &update02(),
            &fixtures::rapdu(&fixtures::iu_scp02(0x20, [0x00, 0x05], [7; 6], CARD), OK),
        )
        .step(&authenticate(level), &fixtures::sw(OK))
}

/// Opens the channel at the beginning of a trace.
fn open(trace: &Trace) -> (MockTransport, StubBackend, ScpSession) {
    let mut mock = trace.mock();
    let mut backend = StubBackend::new();
    let advertised = [ScpVariant::Scp03 { i_param: 0x70 }];
    let session = open_scp(&mut mock, &mut backend, &args(&advertised, &ISD, 0x00, 0x33))
        .expect("open")
        .session;
    (mock, backend, session)
}

/// Runs the given answers to one command against an open channel.
fn after_open(command: &[u8], answer: &[u8]) -> (MockTransport, StubBackend, ScpSession) {
    open(&opened03().step(command, answer))
}

// ---- Probe -----------------------------------------------------------------

/// A link that may be gone.
struct Link {
    connected: bool,
}

impl Transport for Link {
    fn transmit(&mut self, _capdu: &[u8]) -> Result<Rapdu, TransportError> {
        Err(TransportError::CardRemoved)
    }
    fn capabilities(&self) -> TransportCaps {
        TransportCaps {
            handles_t0_get_response: true,
            protocol: TransportProtocol::T0,
            contactless: false,
        }
    }
    fn reset(&mut self) -> Result<AtrAts, TransportError> {
        Err(TransportError::Timeout)
    }
    fn protocol(&self) -> TransportProtocol {
        TransportProtocol::T0
    }
    fn is_connected(&self) -> bool {
        self.connected
    }
}

#[test]
fn probe_reports_a_link_that_is_there() {
    let mut link = Link { connected: true };
    let report = probe(&mut link, TransportName::User).expect("connected");
    assert!(matches!(report.effective.transport_name, TransportName::User));
    assert!(report.effective.transport_capabilities.handles_t0_get_response);
    assert_eq!(report.effective.transport_capabilities.protocol, TransportProtocol::T0);
    assert!(report.warnings.is_empty());
    let mut gone = Link { connected: false };
    assert!(matches!(
        probe(&mut gone, TransportName::User),
        Err(ScllError::TransportUnavailable)
    ));
}

#[test]
fn failures_of_the_link_are_told_apart() {
    assert!(matches!(map_transport(&TransportError::CardRemoved), ScllError::CardRemoved));
    assert!(matches!(map_transport(&TransportError::ReaderGone), ScllError::ReaderGone));
    assert!(matches!(map_transport(&TransportError::Timeout), ScllError::Timeout));
    assert!(matches!(
        map_transport(&TransportError::ProtocolError),
        ScllError::TransportUnavailable
    ));
    assert!(matches!(
        map_transport(&TransportError::Other(String::new())),
        ScllError::TransportUnavailable
    ));
    let mut link = Link { connected: true };
    assert!(matches!(discover_card(&mut link, None), Err(ScllError::Timeout)));
}

#[test]
fn status_words_are_split_off() {
    let (data, sw) = split_sw(&[0xDE, 0xAD, 0x90, 0x00]).expect("long enough");
    assert_eq!(data.as_slice(), &[0xDE, 0xAD]);
    assert_eq!(sw, OK);
    let (data, sw) = split_sw(&[0x6A, 0x88]).expect("long enough");
    assert!(data.as_slice().is_empty());
    assert_eq!(sw, 0x6A88);
    assert!(matches!(split_sw(&[0x90]), Err(ScllError::Card { sw: 0 })));
    assert!(matches!(split_sw(&[]), Err(ScllError::Card { sw: 0 })));
}

// ---- Discovery -------------------------------------------------------------

/// A reader that answers with objects of a card.
struct StubReader;

impl Transport for StubReader {
    fn transmit(&mut self, capdu: &[u8]) -> Result<Rapdu, TransportError> {
        let rapdu: &[u8] = match (capdu.get(1), capdu.get(2), capdu.get(3)) {
            (Some(&0xA4), _, _) => &[
                0x6F, 0x0A, 0x84, 0x08, 0xA0, 0x00, 0x00, 0x01, 0x51, 0x00, 0x00, 0x00, 0x90, 0x00,
            ],
            (Some(&0xCA), Some(&0x00), Some(&0x66)) => &[
                0x66, 0x0F, 0x73, 0x0D, 0x64, 0x0B, 0x06, 0x09, 0x2A, 0x86, 0x48, 0x86, 0xFC, 0x6B,
                0x04, 0x03, 0x70, 0x90, 0x00,
            ],
            (Some(&0xCA), Some(&0x00), Some(&0xE0)) => {
                &[0xE0, 0x06, 0xC0, 0x04, 0x01, 0x30, 0x88, 0x10, 0x90, 0x00]
            }
            _ => &[0x6A, 0x88],
        };
        Ok(Rapdu::from_slice(rapdu).unwrap())
    }
    fn reset(&mut self) -> Result<AtrAts, TransportError> {
        Ok(AtrAts { bytes: vec![0x3B, 0x00], protocol: TransportProtocol::T1 })
    }
    fn capabilities(&self) -> TransportCaps {
        TransportCaps {
            handles_t0_get_response: false,
            protocol: TransportProtocol::T1,
            contactless: false,
        }
    }
    fn protocol(&self) -> TransportProtocol {
        TransportProtocol::T1
    }
    fn is_connected(&self) -> bool {
        true
    }
}

#[test]
fn discovery_reads_what_the_card_tells() {
    let mut card = StubReader;
    let info = discover_card(&mut card, None).unwrap();
    assert_eq!(info.isd_aid.as_bytes(), &ISD);
    assert!(matches!(info.scp_default, ScpVariant::Scp03 { i_param: 0x70 }));
    assert_eq!(info.isd_keysets.len(), 1);
    assert_eq!(info.isd_keysets[0].kvn, 0x30);
    assert_eq!(info.isd_keysets[0].keys[0].kid, 0x01);
    assert_eq!(info.isd_keysets[0].keys[0].key_type, KeyType::Aes);
    assert_eq!(info.atr_or_ats, vec![0x3B, 0x00]);
    assert_eq!(info.transport_protocol, TransportProtocol::T1);
    assert_eq!(info.card_recognition_data_raw.len(), 17);
    assert!(matches!(info.privilege_encoding, PrivLen::Canonical));
    assert_eq!(info.discovery_warnings.len(), 1);
    assert!(matches!(
        info.discovery_warnings[0],
        DiscoveryWarning::CardCapabilityInfoMissing
    ));
}

fn objects(select: &[u8], answers: [&[u8]; 6]) -> MockTransport {
    let tags: [[u8; 2]; 6] =
        [[0x00, 0x66], [0x00, 0xE0], [0x00, 0x67], [0x00, 0x42], [0x00, 0x45], [0x9F, 0x7F]];
    let mut trace = Trace::new().step(select_by_aid(&[]).unwrap().as_slice(), select);
    for (tag, answer) in tags.iter().zip(answers.iter()) {
        trace = trace.step(&[0x80, 0xCA, tag[0], tag[1], 0x00], answer);
    }
    trace.mock()
}

#[test]
fn discovery_keeps_the_numbers_of_issuer_and_card() {
    let fci = fixtures::rapdu(&fixtures::fci_with_aid(&ISD), OK);
    let crd = fixtures::rapdu(&fixtures::crd_scp02(0x15), OK);
    let kit = fixtures::rapdu(&fixtures::kit_aes_kvn1(), OK);
    let cci = fixtures::rapdu(&fixtures::cci_basic(), OK);
    let iin = fixtures::rapdu(&[1, 2, 3], OK);
    let cin = fixtures::rapdu(&[4; 17], OK);
    let mut jcop = vec![0x9F, 0x7F, 0x06, 0x47, 0x90, 0x50, 0x40, 0x47, 0x91];
    jcop = fixtures::rapdu(&jcop, OK);
    let mut mock = objects(&fci, [&crd, &kit, &cci, &iin, &cin, &jcop]);
    let info = discover_card(&mut mock, None).expect("discover");
    assert!(mock.is_drained());
    assert_eq!(info.scp_supported, vec![ScpVariant::Scp02 { i_param: 0x15 }]);
    assert_eq!(info.iin.unwrap().as_slice(), &[1, 2, 3]);
    assert!(info.cin.is_none());
    assert!(info.card_image_number.is_none());
    assert!(matches!(info.privilege_encoding, PrivLen::Jcop1Byte));
    assert!(info.discovery_warnings.is_empty());
    assert!(info.quirks_detected.is_empty());
    assert!(info.jc_platform_version.is_none());
}

#[test]
fn discovery_fails_where_the_card_does() {
    let gone = fixtures::sw(0x6A88);
    let mut mock = Trace::new()
        .step(select_by_aid(&[]).unwrap().as_slice(), &fixtures::sw(0x6A82))
        .mock();
    assert!(matches!(discover_card(&mut mock, None), Err(ScllError::CardNotUsable)));
    let mut mock = Trace::new()
        .step(select_by_aid(&[]).unwrap().as_slice(), &fixtures::sw(0x6D00))
        .mock();
    assert!(matches!(discover_card(&mut mock, None), Err(ScllError::Card { sw: 0x6D00 })));
    let mut mock =
        Trace::new().step(select_by_aid(&[]).unwrap().as_slice(), &fixtures::sw(OK)).mock();
    assert!(matches!(discover_card(&mut mock, None), Err(ScllError::IsdAidNotFound)));
    let fci = fixtures::rapdu(&fixtures::fci_with_aid(&ISD), OK);
    let locked = fixtures::sw(0x6982);
    let mut mock = objects(&fci, [&gone, &locked, &gone, &gone, &gone, &gone]);
    assert!(matches!(
        discover_card(&mut mock, None),
        Err(ScllError::SecurityStatusNotSatisfied)
    ));
    assert_eq!(mock.remaining(), 4);
    let broken = fixtures::rapdu(&[0x66, 0x05, 0x73], OK);
    let mut mock = objects(&fci, [&broken, &gone, &gone, &gone, &gone, &gone]);
    assert!(matches!(discover_card(&mut mock, None), Err(ScllError::MalformedResponse(_))));
    let long = [0xA0; 256];
    let mut mock = Trace::new().mock();
    assert!(matches!(
        discover_card(&mut mock, Some(&long)),
        Err(ScllError::Build(BuildError::Overflow))
    ));
}

#[test]
fn the_issuer_is_named_by_the_caller_or_the_card() {
    let fci = fixtures::fci_with_aid(&ISD);
    assert_eq!(resolve_isd_aid(None, &fci).unwrap().as_bytes(), &ISD);
    assert_eq!(resolve_isd_aid(Some(&SSD), &fci).unwrap().as_bytes(), &SSD);
    assert!(matches!(
        resolve_isd_aid(Some(&[1, 2, 3, 4]), &fci),
        Err(ScllError::InvalidAid { len: 4 })
    ));
    assert!(matches!(
        resolve_isd_aid(None, &fixtures::fci_with_aid(&[1, 2])),
        Err(ScllError::InvalidAid { len: 2 })
    ));
    assert!(matches!(resolve_isd_aid(None, &[]), Err(ScllError::IsdAidNotFound)));
}

#[test]
fn production_data_tells_the_privileges_encoding() {
    assert_eq!(cplc_value(&[0x9F, 0x7F, 0x02, 0xAA, 0xBB, 0xCC]), &[0xAA, 0xBB]);
    assert_eq!(cplc_value(&[0x9F, 0x7F, 0x04, 0xAA]), &[0x9F, 0x7F, 0x04, 0xAA]);
    assert_eq!(cplc_value(&[0x47, 0x90]), &[0x47, 0x90]);
    let jcop = priv_len_from_cplc(&[0x47, 0x90, 0x00, 0x00, 0x47, 0x00]);
    assert!(matches!(jcop, PrivLen::Jcop1Byte));
    for other in [
        [0x47, 0x90, 0x00, 0x00, 0x48, 0x00],
        [0x47, 0x91, 0x00, 0x00, 0x47, 0x00],
        [0x48, 0x90, 0x00, 0x00, 0x47, 0x00],
        [0; 6],
    ] {
        assert!(matches!(priv_len_from_cplc(&other), PrivLen::Canonical));
    }
    let short = priv_len_from_cplc(&[0x47, 0x90, 0x00, 0x00, 0x47]);
    assert!(matches!(short, PrivLen::Canonical));
}

// ---- Opening a channel -----------------------------------------------------

#[test]
fn a_channel_of_the_older_protocol_is_opened() {
    let mut mock = opened02(0x13).mock();
    let mut backend = StubBackend::new();
    let advertised = [ScpVariant::Scp02 { i_param: 0x55 }];
    let report =
        open_scp(&mut mock, &mut backend, &args(&advertised, &ISD, 0x00, 0x33)).expect("open");
    assert!(mock.is_drained());
    assert_eq!(report.session.protocol(), ScpProtocol::Scp02);
    assert_eq!(report.session.security_level(), 0x13);
    assert_eq!(report.session.i_param(), 0x55);
    assert_eq!(report.session.kvn(), 0x20);
    assert_eq!(report.effective.kvn_effective, 0x20);
    assert_eq!(report.effective.security_level_requested, 0x33);
    assert_eq!(report.effective.security_level_effective, 0x13);
    assert_eq!(report.effective.target_aid.as_bytes(), &ISD);
    assert_eq!(report.effective.sd_aid_used_for_keys.as_bytes(), &ISD);
    assert_eq!(report.effective.invoker_aid_used.as_bytes(), &ISD);
}

#[test]
fn a_partial_name_is_completed_by_the_card() {
    let short = &ISD[..5];
    let trace = Trace::new()
        .step(
            select_by_aid(short).unwrap().as_slice(),
            &fixtures::rapdu(&fixtures::fci_with_aid(&ISD), OK),
        )
        .step(&update03(), &fixtures::rapdu(&fixtures::iu_scp03(0x30, 0x70, [9; 8], CARD), OK))
        .step(&authenticate(0x33), &fixtures::sw(OK));
    let mut mock = trace.mock();
    let mut backend = StubBackend::new();
    let advertised = [ScpVariant::Scp03 { i_param: 0x70 }];
    let report =
        open_scp(&mut mock, &mut backend, &args(&advertised, short, 0x00, 0x33)).expect("open");
    assert_eq!(report.effective.target_aid.as_bytes(), short);
    assert_eq!(report.effective.invoker_aid_used.as_bytes(), &ISD);
}

#[test]
fn a_channel_that_cannot_be_opened() {
    let scp03 = [ScpVariant::Scp03 { i_param: 0x70 }];
    let mut backend = StubBackend::new();

    let mut mock = Trace::new().mock();
    let r = open_scp(&mut mock, &mut backend, &args(&[], &ISD, 0x00, 0x33));
    assert!(matches!(r, Err(ScllError::ScpProtocolUnsupported)));

    let mut mock =
        Trace::new().step(select_by_aid(&ISD).unwrap().as_slice(), &fixtures::sw(0x6A82)).mock();
    let r = open_scp(&mut mock, &mut backend, &args(&scp03, &ISD, 0x00, 0x33));
    assert!(matches!(r, Err(ScllError::CardNotUsable)));

    let mut mock = selected(&[1, 2, 3]).mock();
    let r = open_scp(&mut mock, &mut backend, &args(&scp03, &[1, 2, 3], 0x00, 0x33));
    assert!(matches!(r, Err(ScllError::InvalidAid { len: 3 })));

    let mut mock = selected(&ISD).step(&update03(), &fixtures::sw(0x6A88)).mock();
    let r = open_scp(&mut mock, &mut backend, &args(&scp03, &ISD, 0x00, 0x33));
    assert!(matches!(r, Err(ScllError::Card { sw: 0x6A88 })));

    let mut mock = selected(&ISD)
        .step(&update03(), &fixtures::rapdu(&fixtures::iu_scp03(0x30, 0x70, [8; 8], CARD), OK))
        .mock();
    let r = open_scp(&mut mock, &mut backend, &args(&scp03, &ISD, 0x00, 0x33));
    assert!(matches!(r, Err(ScllError::CardChallengeFail)));

    let mut mock = selected(&ISD)
        .step(&update03(), &fixtures::rapdu(&fixtures::iu_scp03(0x30, 0x70, [9; 8], [0xAB; 8]), OK))
        .mock();
    let r = open_scp(&mut mock, &mut backend, &args(&scp03, &ISD, 0x00, 0x33));
    assert!(matches!(r, Err(ScllError::CardCryptogramFail)));
    assert!(mock.is_drained());

    let update = scll::scp::scp03::iu_command(0x31, &[0u8; 8]).unwrap();
    let mut mock = selected(&ISD)
        .step(
            update.as_slice(),
            &fixtures::rapdu(&fixtures::iu_scp03(0x30, 0x70, [9; 8], CARD), OK),
        )
        .mock();
    let r = open_scp(&mut mock, &mut backend, &args(&scp03, &ISD, 0x31, 0x33));
    assert!(matches!(r, Err(ScllError::KvnMismatch)));

    let scp02 = [ScpVariant::Scp02 { i_param: 0x55 }];
    let mut mock = opened02(0x13).mock();
    let r = open_scp(&mut mock, &mut backend, &args(&scp02, &ISD, 0x00, 0x20));
    assert!(matches!(r, Err(ScllError::NoCommonSecurityLevel)));
    assert_eq!(mock.remaining(), 1);

    let mut mock = selected(&ISD)
        .step(&update03(), &fixtures::rapdu(&fixtures::iu_scp03(0x30, 0x70, [9; 8], CARD), OK))
        .step(&authenticate(0x33), &fixtures::sw(0x6300))
        .mock();
    let r = open_scp(&mut mock, &mut backend, &args(&scp03, &ISD, 0x00, 0x33));
    assert!(matches!(r, Err(ScllError::ExternalAuthFail { sw: 0x6300 })));
}

#[test]
fn other_canned_results_are_used() {
    let mut backend = StubBackend::new()
        .with_cryptograms([0x11; 8], [0x22; 8])
        .with_pseudo_challenge([0x33; 8]);
    assert_eq!(backend.card_cryptogram(), [0x11; 8]);
    assert_eq!(backend.host_cryptogram(), [0x22; 8]);
    assert_eq!(backend.kcv(), KCV);
    assert_eq!(backend.encrypted_key_block(), [0xE0; 16]);
    let mut ea = vec![0x84, 0x82, 0x33, 0x00, 0x08];
    ea.extend_from_slice(&[0x22; 8]);
    let mut mock = selected(&ISD)
        .step(
            &update03(),
            &fixtures::rapdu(&fixtures::iu_scp03(0x30, 0x70, [0x33; 8], [0x11; 8]), OK),
        )
        .step(&ea, &fixtures::sw(OK))
        .mock();
    let scp03 = [ScpVariant::Scp03 { i_param: 0x70 }];
    assert!(open_scp(&mut mock, &mut backend, &args(&scp03, &ISD, 0x00, 0x33)).is_ok());
    assert_eq!(backend.compute_kcv(&KeyHandle::new(9)).unwrap(), KCV);
}

// ---- Keys ------------------------------------------------------------------

fn key_blocks(key_type: u8, len: u8) -> Vec<u8> {
    let block = [0xE0u8; 16];
    let one = || KeyBlock { key_type, encrypted_key: &block, kcv: KCV, clear_key_len: len };
    put_key(0x00, 0x31, &[one(), one(), one()]).unwrap().as_slice().to_vec()
}

fn put_args<'a>(kind: KeyKind, target: &'a [u8]) -> PutSdKeysArgs<'a> {
    PutSdKeysArgs {
        dek: KeyHandle::new(3),
        new_keys: NewKeyset {
            enc: KeyHandle::new(4),
            mac: KeyHandle::new(5),
            dek: KeyHandle::new(6),
            kind,
        },
        new_kvn: 0x31,
        target_sd_aid: target,
    }
}

#[test]
fn keys_are_put_with_the_length_of_their_kind() {
    for (kind, len) in [(KeyKind::Aes128, 16), (KeyKind::Aes192, 24), (KeyKind::Aes256, 32)] {
        let echo = fixtures::rapdu(&fixtures::put_key_echo(0x31, KCV), OK);
        let (mut mock, mut backend, mut session) = after_open(&key_blocks(0x88, len), &echo);
        let put = put_sd_keys(&mut mock, &mut backend, &mut session, &put_args(kind, &SSD))
            .expect("put");
        assert!(mock.is_drained());
        assert_eq!(put.effective.key_length, len);
        assert_eq!(put.effective.key_type, KeyType::Aes);
        assert_eq!(put.effective.target_sd_aid.as_bytes(), &SSD);
        assert_eq!(put.effective.kcvs, [0xC0, 0xC1, 0xC2, 0xC0, 0xC1, 0xC2, 0xC0, 0xC1, 0xC2]);
    }
}

#[test]
fn keys_are_put_over_the_older_protocol() {
    let trace = opened02(0x03).step(&key_blocks(0x80, 16), &fixtures::sw(OK));
    let mut mock = trace.mock();
    let mut backend = StubBackend::new();
    let advertised = [ScpVariant::Scp02 { i_param: 0x55 }];
    let mut session = open_scp(&mut mock, &mut backend, &args(&advertised, &ISD, 0x00, 0x03))
        .expect("open")
        .session;
    let new = put_args(KeyKind::TripleDesDouble, &ISD);
    let put = put_sd_keys(&mut mock, &mut backend, &mut session, &new).expect("put");
    assert!(mock.is_drained());
    assert_eq!(put.effective.scp_protocol, ScpProtocol::Scp02);
    assert_eq!(put.effective.key_type, KeyType::Des);
    assert_eq!(put.effective.key_length, 16);
}

#[test]
fn the_older_protocol_does_not_use_the_given_encryption_key() {
    let mut reports = Vec::new();
    for dek in [3, 0xFFFF] {
        let trace = opened02(0x03).step(&key_blocks(0x80, 16), &fixtures::sw(OK));
        let mut mock = trace.mock();
        let mut backend = StubBackend::new();
        let advertised = [ScpVariant::Scp02 { i_param: 0x55 }];
        let mut session = open_scp(&mut mock, &mut backend, &args(&advertised, &ISD, 0x00, 0x03))
            .expect("open")
            .session;
        let mut new = put_args(KeyKind::TripleDesDouble, &ISD);
        new.dek = KeyHandle::new(dek);
        let put = put_sd_keys(&mut mock, &mut backend, &mut session, &new).expect("put");
        assert!(mock.is_drained());
        reports.push((put.effective.kcvs, put.effective.key_length, put.effective.new_kvn));
    }
    assert_eq!(reports[0], reports[1]);
}

#[test]
fn a_wrong_echo_of_the_keys_is_found() {
    let wire = key_blocks(0x88, 16);
    let wrong = fixtures::rapdu(&fixtures::put_key_echo(0x31, [0xC0, 0xC1, 0xC3]), OK);
    let (mut mock, mut backend, mut session) = after_open(&wire, &wrong);
    let r = put_sd_keys(&mut mock, &mut backend, &mut session, &put_args(KeyKind::Aes128, &ISD));
    assert!(matches!(r, Err(ScllError::KeyCheckValueMismatch)));
    let other = fixtures::rapdu(&fixtures::put_key_echo(0x32, KCV), OK);
    let (mut mock, mut backend, mut session) = after_open(&wire, &other);
    let r = put_sd_keys(&mut mock, &mut backend, &mut session, &put_args(KeyKind::Aes128, &ISD));
    assert!(matches!(r, Err(ScllError::KeyCheckValueMismatch)));
    let (mut mock, mut backend, mut session) = after_open(&wire, &fixtures::sw(0x6982));
    let r = put_sd_keys(&mut mock, &mut backend, &mut session, &put_args(KeyKind::Aes128, &ISD));
    assert!(matches!(r, Err(ScllError::SecurityStatusNotSatisfied)));
    let (mut mock, mut backend, mut session) = after_open(&wire, &fixtures::sw(OK));
    let r = put_sd_keys(&mut mock, &mut backend, &mut session, &put_args(KeyKind::Aes128, &[1, 2]));
    assert!(matches!(r, Err(ScllError::InvalidAid { len: 2 })));
}

#[test]
fn an_echo_says_something_only_in_full() {
    let (a, b, c) = ([1, 2, 3], [4, 5, 6], [7, 8, 9]);
    let all = [1, 2, 3, 4, 5, 6, 7, 8, 9];
    assert_eq!(verify_kcv_echo(&[], 0x31, a, b, c).unwrap(), all);
    assert_eq!(verify_kcv_echo(&[0x32], 0x31, a, b, c).unwrap(), all);
    let mut echo = vec![0x31];
    echo.extend_from_slice(&all);
    assert_eq!(verify_kcv_echo(&echo, 0x31, a, b, c).unwrap(), all);
    echo.push(0xFF);
    assert_eq!(verify_kcv_echo(&echo, 0x31, a, b, c).unwrap(), all);
    for i in 0..10 {
        let mut bad = echo.clone();
        bad[i] ^= 0x80;
        assert!(matches!(
            verify_kcv_echo(&bad, 0x31, a, b, c),
            Err(ScllError::KeyCheckValueMismatch)
        ));
    }
}

#[test]
fn deleting_a_key_version() {
    let wire = delete_key(None, Some(0x20)).unwrap();
    let (mut mock, mut backend, mut session) = after_open(wire.as_slice(), &fixtures::sw(0x6A88));
    let r = delete_sd_keyset(&mut mock, &mut backend, &mut session, 0x20, &ISD);
    assert!(matches!(r, Err(ScllError::KeyNotFound)));
    let (mut mock, mut backend, mut session) = after_open(wire.as_slice(), &fixtures::sw(0x6985));
    let r = delete_sd_keyset(&mut mock, &mut backend, &mut session, 0x20, &ISD);
    assert!(matches!(r, Err(ScllError::ConditionsNotSatisfied)));
    let (mut mock, mut backend, mut session) = after_open(wire.as_slice(), &fixtures::sw(OK));
    let r = delete_sd_keyset(&mut mock, &mut backend, &mut session, 0x20, &SSD).expect("deleted");
    assert_eq!(r.effective.target_sd_aid.as_bytes(), &SSD);
}

// ---- Security domains and applets ------------------------------------------

fn create<'a>(privileges: [u8; 3], params: &'a [u8]) -> CreateSsdArgs<'a> {
    CreateSsdArgs {
        parent_sd_aid: &ISD,
        ssd_aid: &SSD,
        elf_aid: &ELF,
        module_aid: &MODULE,
        privileges,
        install_params: params,
    }
}

#[test]
fn creating_a_security_domain() {
    let wire = install_for_install_make_selectable(
        &ELF,
        &MODULE,
        &SSD,
        [0x80, 0x00, 0x00],
        PrivLen::Jcop1Byte,
        &[0xC9, 0x00],
    )
    .unwrap();
    let a = create([0x80, 0x00, 0x00], &[0xC9, 0x00]);
    for (sw, ok) in [(OK, true), (0x6A88, false), (0x6A80, false), (0x6A84, false)] {
        let (mut mock, mut backend, mut session) = after_open(wire.as_slice(), &fixtures::sw(sw));
        let r = create_ssd(&mut mock, &mut backend, &mut session, &a, PrivLen::Jcop1Byte);
        assert!(mock.is_drained());
        match r {
            Ok(report) => {
                assert!(ok);
                assert!(!report.effective.aid_was_generated);
                assert_eq!(report.effective.install_params_used, vec![0xC9, 0x00]);
                assert_eq!(report.effective.privileges_used, [0x80, 0x00, 0x00]);
            }
            Err(ScllError::ResidentSdNotFound) => assert_eq!(sw, 0x6A88),
            Err(ScllError::AidAlreadyExists) => assert_eq!(sw, 0x6A80),
            Err(e) => {
                assert!(matches!(e, ScllError::Card { sw: 0x6A84 }));
                assert_eq!(sw, 0x6A84);
            }
        }
    }
}

#[test]
fn what_is_refused_is_never_sent() {
    for first in [0x40u8, 0x20, 0x01, 0xC0] {
        let (mut mock, mut backend, mut session) = open(&opened03());
        let a = create([first, 0x00, 0x00], &[0xC9, 0x00]);
        let r = create_ssd(&mut mock, &mut backend, &mut session, &a, PrivLen::Canonical);
        assert!(matches!(r, Err(ScllError::UnsupportedPrivilege)));
    }
    let (mut mock, mut backend, mut session) = open(&opened03());
    let long = [0u8; 230];
    let a = create([0x80, 0x00, 0x00], &long);
    let r = create_ssd(&mut mock, &mut backend, &mut session, &a, PrivLen::Canonical);
    assert!(matches!(r, Err(ScllError::Build(BuildError::Overflow))));
    for first in [0x80u8, 0x40, 0x20, 0x01] {
        let r = install_applet(
            &mut mock,
            &mut backend,
            &mut session,
            &InstallAppletArgs {
                parent_sd_aid: &ISD,
                package_aid: &ELF,
                module_aid: &MODULE,
                instance_aid: &SSD,
                privileges: [first, 0x00, 0x00],
                system_install_params: &[],
                applet_install_params: &[],
            },
            PrivLen::Canonical,
        );
        assert!(matches!(r, Err(ScllError::UnsupportedPrivilege)));
    }
    let r = install_applet(
        &mut mock,
        &mut backend,
        &mut session,
        &InstallAppletArgs {
            parent_sd_aid: &ISD,
            package_aid: &ELF,
            module_aid: &MODULE,
            instance_aid: &SSD,
            privileges: [0x00, 0x00, 0x00],
            system_install_params: &[1; 128],
            applet_install_params: &[2; 128],
        },
        PrivLen::Canonical,
    );
    assert!(matches!(r, Err(ScllError::Build(BuildError::Overflow))));
    assert!(mock.is_drained());
}

#[test]
fn installing_an_applet_with_both_kinds_of_parameters() {
    let wire = install_for_install_make_selectable(
        &ELF,
        &MODULE,
        &SSD,
        [0x00, 0x00, 0x00],
        PrivLen::Canonical,
        &[0xC9, 0x02, 0xAA, 0xBB, 0xEF, 0x01, 0xCC],
    )
    .unwrap();
    let a = InstallAppletArgs {
        parent_sd_aid: &ISD,
        package_aid: &ELF,
        module_aid: &MODULE,
        instance_aid: &SSD,
        privileges: [0x00, 0x00, 0x00],
        system_install_params: &[0xCC],
        applet_install_params: &[0xAA, 0xBB],
    };
    let (mut mock, mut backend, mut session) = after_open(wire.as_slice(), &fixtures::sw(OK));
    let r = install_applet(&mut mock, &mut backend, &mut session, &a, PrivLen::Canonical)
        .expect("installed");
    assert_eq!(r.effective.system_install_params, vec![0xCC]);
    assert_eq!(r.effective.applet_install_params, vec![0xAA, 0xBB]);
    assert_eq!(r.effective.parent_sd_aid.as_bytes(), &ISD);
    let (mut mock, mut backend, mut session) = after_open(wire.as_slice(), &fixtures::sw(0x6A88));
    let r = install_applet(&mut mock, &mut backend, &mut session, &a, PrivLen::Canonical);
    assert!(matches!(r, Err(ScllError::PackageNotFound)));
    let (mut mock, mut backend, mut session) = after_open(wire.as_slice(), &fixtures::sw(0x6A80));
    let r = install_applet(&mut mock, &mut backend, &mut session, &a, PrivLen::Canonical);
    assert!(matches!(r, Err(ScllError::AidAlreadyExists)));
}

#[test]
fn deleting_a_security_domain() {
    let alone = delete_object(&SSD, false).unwrap();
    let with_content = delete_object(&SSD, true).unwrap();
    for (cascade, cascades) in [
        (DeleteCascade::Never, false),
        (DeleteCascade::IfLastInstance, false),
        (DeleteCascade::Cascade, true),
        (DeleteCascade::Always, true),
    ] {
        let wire = if cascades { with_content.as_slice() } else { alone.as_slice() };
        let (mut mock, mut backend, mut session) = after_open(wire, &fixtures::sw(OK));
        let r = delete_ssd(&mut mock, &mut backend, &mut session, &SSD, cascade).expect("deleted");
        assert_eq!(r.effective.cascade_used, cascades);
        assert!(matches!(r.effective.target_kind, DeleteTargetKind::Ssd));
        let (mut mock, mut backend, mut session) = after_open(wire, &fixtures::sw(0x6985));
        let r = delete_ssd(&mut mock, &mut backend, &mut session, &SSD, cascade);
        if cascades {
            assert!(matches!(r, Err(ScllError::ConditionsNotSatisfied)));
        } else {
            assert!(matches!(r, Err(ScllError::SsdHasApplets)));
        }
    }
    let (mut mock, mut backend, mut session) = after_open(alone.as_slice(), &fixtures::sw(0x6A88));
    let r = delete_ssd(&mut mock, &mut backend, &mut session, &SSD, DeleteCascade::Never);
    assert!(matches!(r, Err(ScllError::TargetNoLongerExists)));
}

#[test]
fn deleting_an_applet_and_its_load_file() {
    let instance = delete_object(&SSD, false).unwrap();
    let elf = delete_object(&ELF, false).unwrap();
    let a = |cascade_elf| DeleteAppletArgs { instance_aid: &SSD, elf_aid: Some(&ELF), cascade_elf };
    for sw in [OK, 0x6985, 0x6A88, 0x6A80] {
        let trace = opened03()
            .step(instance.as_slice(), &fixtures::sw(OK))
            .step(elf.as_slice(), &fixtures::sw(sw));
        let (mut mock, mut backend, mut session) = open(&trace);
        let r = delete_applet(
            &mut mock,
            &mut backend,
            &mut session,
            &a(DeleteCascade::IfLastInstance),
        );
        assert!(mock.is_drained());
        match r {
            Ok(report) => {
                assert_eq!(sw, OK);
                assert!(report.effective.cascade_used);
                assert_eq!(report.effective.elfs_removed[0].as_bytes(), &ELF);
                assert_eq!(report.effective.instances_removed[0].as_bytes(), &SSD);
            }
            Err(ScllError::ElfHasOtherInstances) => assert_eq!(sw, 0x6985),
            Err(ScllError::TargetNoLongerExists) => assert_eq!(sw, 0x6A88),
            Err(e) => {
                assert!(matches!(e, ScllError::Card { sw: 0x6A80 }));
                assert_eq!(sw, 0x6A80);
            }
        }
    }
    let (mut mock, mut backend, mut session) = after_open(instance.as_slice(), &fixtures::sw(OK));
    let r = delete_applet(&mut mock, &mut backend, &mut session, &a(DeleteCascade::Cascade))
        .expect("instance alone");
    assert!(!r.effective.cascade_used);
    assert!(r.effective.elfs_removed.is_empty());
    let gone = fixtures::sw(0x6A88);
    let (mut mock, mut backend, mut session) = after_open(instance.as_slice(), &gone);
    let r = delete_applet(&mut mock, &mut backend, &mut session, &a(DeleteCascade::Always));
    assert!(matches!(r, Err(ScllError::TargetNoLongerExists)));
}

// ---- Loading ---------------------------------------------------------------

/// A stored archive with a header component and a method component that is said to be
/// `announced` bytes long.
fn package(method: &[u8], announced: usize) -> Vec<u8> {
    let header: [u8; 20] = [
        0x01, 0x00, 0x11, 0xDE, 0xCA, 0xFF, 0xED, 0x01, 0x02, 0x00, 0x00, 0x01, 0x07, 0xA0, 0x00,
        0x00, 0x00, 0x62, 0x03, 0x01,
    ];
    let parts: [(&str, &[u8], usize); 2] =
        [("a/Header.cap", &header, 20), ("a/Method.cap", method, announced)];
    let mut z = Vec::new();
    let mut dir = Vec::new();
    for (name, bytes, size) in parts {
        let at = z.len() as u32;
        let mut common = vec![20, 0, 0, 0, 0, 0, 0, 0, 0, 0, 0, 0, 0, 0];
        common.extend_from_slice(&(bytes.len() as u32).to_le_bytes());
        common.extend_from_slice(&(size as u32).to_le_bytes());
        common.extend_from_slice(&(name.len() as u16).to_le_bytes());
        common.extend_from_slice(&[0, 0]);
        z.extend_from_slice(b"PK\x03\x04");
        z.extend_from_slice(&common);
        z.extend_from_slice(name.as_bytes());
        z.extend_from_slice(bytes);
        dir.extend_from_slice(b"PK\x01\x02\x14\x00");
        dir.extend_from_slice(&common);
        dir.extend_from_slice(&[0; 10]);
        dir.extend_from_slice(&at.to_le_bytes());
        dir.extend_from_slice(name.as_bytes());
    }
    let at = z.len() as u32;
    z.extend_from_slice(&dir);
    z.extend_from_slice(b"PK\x05\x06\0\0\0\0\x02\x00\x02\x00");
    z.extend_from_slice(&(dir.len() as u32).to_le_bytes());
    z.extend_from_slice(&at.to_le_bytes());
    z.extend_from_slice(&[0, 0]);
    z
}

fn load_file(method: &[u8]) -> Vec<u8> {
    let n = 20 + method.len();
    let mut v = vec![0xC4, 0x82, (n / 256) as u8, (n % 256) as u8];
    v.extend_from_slice(&[0x01, 0x00, 0x11, 0xDE, 0xCA, 0xFF, 0xED, 0x01, 0x02, 0x00]);
    v.extend_from_slice(&[0x00, 0x01, 0x07, 0xA0, 0x00, 0x00, 0x00, 0x62, 0x03, 0x01]);
    v.extend_from_slice(method);
    v
}

fn load_trace(whole: &[u8], install: u16, refused: usize) -> Trace {
    let command = install_for_load(&ELF, &SSD, &[]).unwrap();
    let mut trace = opened03().step(command.as_slice(), &fixtures::sw(install));
    let blocks: Vec<&[u8]> = whole.chunks(223).collect();
    for (i, block) in blocks.iter().enumerate() {
        if i > refused {
            return trace;
        }
        let wire = load_block(i as u8, i + 1 == blocks.len(), block).unwrap();
        let sw = if i == refused { 0x6A84 } else { OK };
        trace = trace.step(wire.as_slice(), &fixtures::sw(sw));
    }
    trace
}

fn load_args<'a>(zip: &'a [u8], hash: &'a [u8]) -> LoadPackageArgs<'a> {
    LoadPackageArgs { target_sd_aid: &SSD, cap_zip: zip, lfdb_hash: hash }
}

#[test]
fn a_package_is_loaded_block_by_block() {
    let method: Vec<u8> = (0..600u32).map(|i| (i % 251) as u8).collect();
    let whole = load_file(&method);
    let zip = package(&method, method.len());
    let mut infl = InflateCtx::new();
    let (mut mock, mut backend, mut session) = open(&load_trace(&whole, OK, usize::MAX));
    let r = load_package(&mut mock, &mut backend, &mut session, &load_args(&zip, &[]), &mut infl)
        .expect("loaded");
    assert!(mock.is_drained());
    assert_eq!(r.effective.package_aid.as_bytes(), &ELF);
    assert_eq!(r.effective.load_file_size as usize, whole.len());
    assert_eq!(r.effective.block_count, 3);
    assert_eq!(r.effective.target_sd_aid.as_bytes(), &SSD);
    assert!(r.effective.hash_value.is_empty());
}

#[test]
fn a_package_that_the_card_does_not_take() {
    let method = vec![7u8; 600];
    let whole = load_file(&method);
    let zip = package(&method, method.len());
    let mut infl = InflateCtx::new();
    for (sw, refused) in [(0x6A88, 0), (0x6A80, 0), (0x6A84, 0)] {
        let command = install_for_load(&ELF, &SSD, &[]).unwrap();
        let trace = opened03().step(command.as_slice(), &fixtures::sw(sw));
        let (mut mock, mut backend, mut session) = open(&trace);
        let a = load_args(&zip, &[]);
        let r = load_package(&mut mock, &mut backend, &mut session, &a, &mut infl);
        assert_eq!(mock.remaining(), refused);
        match sw {
            0x6A88 => assert!(matches!(r, Err(ScllError::ResidentSdNotFound))),
            0x6A80 => assert!(matches!(r, Err(ScllError::PackageAidExists))),
            _ => assert!(matches!(r, Err(ScllError::Card { sw: 0x6A84 }))),
        }
    }
    let (mut mock, mut backend, mut session) = open(&load_trace(&whole, OK, 1));
    let r = load_package(&mut mock, &mut backend, &mut session, &load_args(&zip, &[]), &mut infl);
    assert!(matches!(r, Err(ScllError::Card { sw: 0x6A84 })));
    assert!(mock.is_drained());
}

#[test]
fn a_package_that_is_not_sent() {
    let mut infl = InflateCtx::new();
    let (mut mock, mut backend, mut session) = open(&opened03());
    let a = load_args(b"no zip", &[]);
    let r = load_package(&mut mock, &mut backend, &mut session, &a, &mut infl);
    assert!(matches!(r, Err(ScllError::Cap(scll::cap::CapError::NotAZip))));
    let large = package(&vec![0u8; MAX_LOAD_BYTES], MAX_LOAD_BYTES);
    let r = load_package(&mut mock, &mut backend, &mut session, &load_args(&large, &[]), &mut infl);
    assert!(matches!(r, Err(ScllError::LoadTooLarge)));
    let zip = package(&[1, 2, 3], 3);
    let hash = [0u8; 250];
    let r = load_package(&mut mock, &mut backend, &mut session, &load_args(&zip, &hash), &mut infl);
    assert!(matches!(r, Err(ScllError::Build(BuildError::Overflow))));
    assert!(mock.is_drained());
}

#[test]
fn a_package_with_missing_bytes_ends_without_a_last_block() {
    let zip = package(&[7u8; 100], 5000);
    let tail = zip.len() - (30 + 12 + 20) - (30 + 12);
    let mut whole = vec![0xC4, 0x82, 0x13, 0x9C];
    whole.extend_from_slice(&load_file(&[])[4..]);
    whole.extend_from_slice(&zip[zip.len() - tail..]);
    let command = install_for_load(&ELF, &SSD, &[]).unwrap();
    let mut trace = opened03().step(command.as_slice(), &fixtures::sw(OK));
    let blocks: Vec<&[u8]> = whole.chunks(223).collect();
    for (i, block) in blocks.iter().enumerate() {
        let wire = load_block(i as u8, false, block).unwrap();
        trace = trace.step(wire.as_slice(), &fixtures::sw(OK));
    }
    let mut infl = InflateCtx::new();
    let (mut mock, mut backend, mut session) = open(&trace);
    let r = load_package(&mut mock, &mut backend, &mut session, &load_args(&zip, &[]), &mut infl)
        .expect("all that is there");
    assert!(mock.is_drained());
    assert_eq!(r.effective.block_count as usize, blocks.len());
}

/// The same archive, with its second component compressed.
fn compressed(mut zip: Vec<u8>) -> Vec<u8> {
    for (mark, at) in [(b"PK\x03\x04", 8), (b"PK\x01\x02", 10)] {
        let second = (0..zip.len() - 4).filter(|i| zip[*i..*i + 4] == mark[..]).nth(1).unwrap();
        zip[second + at] = 8;
    }
    zip
}

#[test]
fn a_package_that_holds_more_than_it_says_is_loaded_up_to_the_last_block() {
    let content: Vec<u8> = (0..600u32).map(|i| (i % 241) as u8).collect();
    let mut stream = vec![0x01, 0x58, 0x02, 0xA7, 0xFD];
    stream.extend_from_slice(&content);
    let zip = compressed(package(&stream, 300));
    let mut whole = vec![0xC4, 0x82, 0x01, 0x40];
    whole.extend_from_slice(&load_file(&[])[4..]);
    whole.extend_from_slice(&content[..422]);
    let mut infl = InflateCtx::new();
    let (mut mock, mut backend, mut session) = open(&load_trace(&whole, OK, usize::MAX));
    let r = load_package(&mut mock, &mut backend, &mut session, &load_args(&zip, &[]), &mut infl)
        .expect("loaded");
    assert!(mock.is_drained());
    assert_eq!(r.effective.block_count, 2);
    assert_eq!(r.effective.load_file_size, 324);
}

#[test]
fn a_package_that_turns_out_corrupt_is_not_loaded() {
    let zip = compressed(package(&[0xFF; 300], 300));
    let command = install_for_load(&ELF, &SSD, &[]).unwrap();
    let mut infl = InflateCtx::new();
    let (mut mock, mut backend, mut session) =
        after_open(command.as_slice(), &fixtures::sw(OK));
    let r = load_package(&mut mock, &mut backend, &mut session, &load_args(&zip, &[]), &mut infl);
    assert!(matches!(r, Err(ScllError::Cap(scll::cap::CapError::Inflate))));
    assert!(mock.is_drained());
}

// ---- Status and inventory --------------------------------------------------

#[test]
fn the_state_is_read_over_several_pages() {
    let first = get_status_p2(0x80, 0x02, &[]).unwrap();
    let next = get_status_p2(0x80, 0x03, &[]).unwrap();
    let entry = fixtures::status_e3(0x07);
    for cut in 0..=entry.len() {
        let trace = opened03()
            .step(first.as_slice(), &fixtures::rapdu(&entry[..cut], 0x6310))
            .step(next.as_slice(), &fixtures::rapdu(&entry[cut..], OK));
        let (mut mock, mut backend, mut session) = open(&trace);
        let r = get_card_status(&mut mock, &mut backend, &mut session, &ISD).expect("status");
        assert!(mock.is_drained());
        assert_eq!(r.state, CardLifeCycle::Initialized);
        assert_eq!(r.effective.raw_state_byte, 0x07);
        assert!(r.warnings.is_empty());
    }
}

#[test]
fn a_state_that_is_not_told_is_a_warning() {
    let r = status_report(&[], false, &ISD).expect("no error");
    assert_eq!(r.state, CardLifeCycle::Unknown(0));
    assert_eq!(r.warnings.len(), 1);
    assert_eq!(r.warnings[0].kind, WarningKind::GetStatusParseFailed);
    let r = status_report(&fixtures::status_e3(0x7F), true, &ISD).expect("no error");
    assert_eq!(r.state, CardLifeCycle::CardLocked);
    assert_eq!(r.warnings.len(), 1);
    assert!(matches!(
        status_report(&[0xE3, 0x05], false, &ISD),
        Err(ScllError::MalformedResponse(_))
    ));
    assert!(matches!(
        status_report(&[], false, &[1]),
        Err(ScllError::InvalidAid { len: 1 })
    ));
    let first = get_status_p2(0x80, 0x02, &[]).unwrap();
    let (mut mock, mut backend, mut session) = after_open(first.as_slice(), &fixtures::sw(0x6982));
    let r = get_card_status(&mut mock, &mut backend, &mut session, &ISD);
    assert!(matches!(r, Err(ScllError::SecurityStatusNotSatisfied)));
}

fn set<'a>(
    target: CardLifeCycle,
    current: Option<CardLifeCycle>,
    force: bool,
) -> SetCardStatusArgs<'a> {
    SetCardStatusArgs { target_state: target, current_state: current, force, isd_aid: &ISD }
}

#[test]
fn the_state_is_set_after_asking_for_it() {
    let first = get_status_p2(0x80, 0x02, &[]).unwrap();
    let wire = set_status_command(0x7F, &ISD).unwrap();
    let trace = opened03()
        .step(first.as_slice(), &fixtures::rapdu(&fixtures::status_e3(0x0F), OK))
        .step(wire.as_slice(), &fixtures::sw(OK));
    let (mut mock, mut backend, mut session) = open(&trace);
    let r = set_card_status(
        &mut mock,
        &mut backend,
        &mut session,
        &set(CardLifeCycle::CardLocked, None, false),
    )
    .expect("set");
    assert!(mock.is_drained());
    assert_eq!(r.effective.state_before, CardLifeCycle::Secured);
    assert_eq!(r.effective.p1_status_type, 0x80);
    assert_eq!(r.effective.p2_state_byte, 0x7F);
    assert!(!r.effective.was_no_op);
    assert!(!r.effective.irreversible);
    assert!(r.warnings.is_empty());
}

#[test]
fn what_can_be_undone_and_what_cannot() {
    let secure = set_status_command(0x0F, &ISD).unwrap();
    let (mut mock, mut backend, mut session) = after_open(secure.as_slice(), &fixtures::sw(OK));
    let a = set(CardLifeCycle::Secured, Some(CardLifeCycle::Initialized), false);
    let r = set_card_status(&mut mock, &mut backend, &mut session, &a).expect("set");
    assert!(r.effective.irreversible);
    let (mut mock, mut backend, mut session) = after_open(secure.as_slice(), &fixtures::sw(OK));
    let a = set(CardLifeCycle::Secured, Some(CardLifeCycle::CardLocked), false);
    let r = set_card_status(&mut mock, &mut backend, &mut session, &a).expect("set");
    assert!(!r.effective.irreversible);
    let (mut mock, mut backend, mut session) = after_open(secure.as_slice(), &fixtures::sw(0x6985));
    let a = set(CardLifeCycle::Secured, Some(CardLifeCycle::Initialized), false);
    let r = set_card_status(&mut mock, &mut backend, &mut session, &a);
    assert!(matches!(r, Err(ScllError::IllegalLifecycleTransition)));
}

#[test]
fn a_state_that_is_out_of_reach_is_not_asked_for() {
    let (mut mock, mut backend, mut session) = open(&opened03());
    let a = set(CardLifeCycle::Terminated, Some(CardLifeCycle::Secured), true);
    let r = set_card_status(&mut mock, &mut backend, &mut session, &a);
    assert!(matches!(r, Err(ScllError::TerminateOutOfScope)));
    let a = set(CardLifeCycle::OpReady, Some(CardLifeCycle::Secured), true);
    let r = set_card_status(&mut mock, &mut backend, &mut session, &a);
    assert!(matches!(r, Err(ScllError::IllegalLifecycleTransition)));
    let a = set(CardLifeCycle::CardLocked, Some(CardLifeCycle::CardLocked), false);
    let r = set_card_status(&mut mock, &mut backend, &mut session, &a).expect("nothing to do");
    assert!(r.effective.was_no_op);
    assert_eq!(r.warnings[0].kind, WarningKind::LifecycleNoOp);
    assert!(mock.is_drained());
}

#[test]
fn an_inventory_without_objects() {
    let mut trace = opened03();
    for p1 in [0x80, 0x40, 0x10] {
        let wire = get_status_p2(p1, 0x02, &[]).unwrap();
        trace = trace.step(wire.as_slice(), &fixtures::sw(0x6A88));
    }
    let (mut mock, mut backend, mut session) = open(&trace);
    let r = get_card_inventory(&mut mock, &mut backend, &mut session, &ISD).expect("inventory");
    assert!(mock.is_drained());
    assert_eq!(r.effective.security_domain_count, 0);
    assert_eq!(r.effective.application_count, 0);
    assert_eq!(r.effective.elf_count, 0);
    assert!(!r.effective.truncated);
    let r = get_card_inventory(&mut mock, &mut backend, &mut session, &[0; 17]);
    assert!(matches!(r, Err(ScllError::InvalidAid { len: 17 })));
}

#[test]
fn an_inventory_that_never_ends_is_cut() {
    let wire = get_status_p2(0x80, 0x02, &[]).unwrap();
    let next = get_status_p2(0x80, 0x03, &[]).unwrap();
    let entry = fixtures::status_e3_app(&ISD, 0x0F, &[0x9E, 0xFE, 0x80]);
    let mut trace = opened03().step(wire.as_slice(), &fixtures::rapdu(&entry, 0x6310));
    for _ in 1..scll::limits::MAX_STATUS_PAGES {
        trace = trace.step(next.as_slice(), &fixtures::sw(0x6310));
    }
    for p1 in [0x40, 0x10] {
        let wire = get_status_p2(p1, 0x02, &[]).unwrap();
        trace = trace.step(wire.as_slice(), &fixtures::sw(0x6A88));
    }
    let (mut mock, mut backend, mut session) = open(&trace);
    let r = get_card_inventory(&mut mock, &mut backend, &mut session, &ISD).expect("inventory");
    assert!(mock.is_drained());
    assert_eq!(r.effective.security_domain_count, 1);
    assert!(r.effective.truncated);
    assert_eq!(r.warnings[0].kind, WarningKind::InventoryTruncated);
}

#[test]
fn a_broken_page_is_a_failure() {
    let first = get_status_p2(0x80, 0x02, &[]).unwrap();
    for page in [&[0xE3, 0x05, 0x4F][..], &[0xE3, 0x80], &[0xE3]] {
        let answer = fixtures::rapdu(page, OK);
        let (mut mock, mut backend, mut session) = after_open(first.as_slice(), &answer);
        let r = get_card_inventory(&mut mock, &mut backend, &mut session, &ISD);
        assert!(matches!(r, Err(ScllError::MalformedResponse(_))));
        assert!(mock.is_drained());
        let (mut mock, mut backend, mut session) = after_open(first.as_slice(), &answer);
        let r = get_card_status(&mut mock, &mut backend, &mut session, &ISD);
        assert!(matches!(r, Err(ScllError::MalformedResponse(_))));
    }
}

#[test]
fn a_state_that_has_no_name_is_a_warning() {
    let first = get_status_p2(0x80, 0x02, &[]).unwrap();
    let answer = fixtures::rapdu(&[0xE3, 0x04, 0x9F, 0x70, 0x01, 0x42], OK);
    let (mut mock, mut backend, mut session) = after_open(first.as_slice(), &answer);
    let r = get_card_status(&mut mock, &mut backend, &mut session, &ISD).expect("status");
    assert_eq!(r.state, CardLifeCycle::Unknown(0x42));
    assert_eq!(r.effective.raw_state_byte, 0x42);
    assert_eq!(r.warnings.len(), 1);
    assert_eq!(r.warnings[0].kind, WarningKind::UnknownLifecycleByte(0x42));
}

/// A load file with `n` modules of five bytes each.
fn elf_entry(n: u8) -> Vec<u8> {
    let mut inner = vec![0x4F, ELF.len() as u8];
    inner.extend_from_slice(&ELF);
    for i in 0..n {
        inner.extend_from_slice(&[0x84, 0x05, 0xA0, 0x00, 0x00, 0x00, i]);
    }
    let mut v = vec![0xE3, 0x81, inner.len() as u8];
    v.extend_from_slice(&inner);
    v
}

#[test]
fn modules_beyond_the_room_for_them_are_reported_as_cut() {
    for n in [16, 17, 30] {
        let mut trace = opened03();
        for p1 in [0x80, 0x40] {
            let wire = get_status_p2(p1, 0x02, &[]).unwrap();
            trace = trace.step(wire.as_slice(), &fixtures::sw(0x6A88));
        }
        let wire = get_status_p2(0x10, 0x02, &[]).unwrap();
        trace = trace.step(wire.as_slice(), &fixtures::rapdu(&elf_entry(n), OK));
        let (mut mock, mut backend, mut session) = open(&trace);
        let r = get_card_inventory(&mut mock, &mut backend, &mut session, &ISD).expect("inventory");
        assert!(mock.is_drained());
        assert_eq!(r.inventory.elfs.len(), 1);
        let modules = &r.inventory.elfs[0].modules;
        assert_eq!(modules.len(), 16);
        for (i, module) in modules.iter().enumerate() {
            assert_eq!(module.as_bytes(), &[0xA0, 0x00, 0x00, 0x00, i as u8]);
        }
        assert_eq!(r.effective.truncated, n > 16);
        assert_eq!(r.warnings.len(), usize::from(n > 16));
        if n > 16 {
            assert_eq!(r.warnings[0].kind, WarningKind::InventoryTruncated);
        }
    }
}

// ---- Application commands --------------------------------------------------

#[test]
fn status_words_of_applications_are_handed_on() {
    let command = [0x80, 0x10, 0x00, 0x00];
    let (mut mock, mut backend, mut session) = after_open(&command, &fixtures::sw(0x6A82));
    let r = send_apdu(&mut mock, &mut backend, &mut session, &command).expect("no error");
    assert_eq!(r.sw, 0x6A82);
    assert_eq!(r.effective.sw, [0x6A, 0x82]);
    assert_eq!(r.effective.capdu_plaintext_len, 4);
    assert_eq!(r.effective.rapdu_plaintext_len, 0);
    assert_eq!(r.effective.sec_level, 0x33);
    let r = send_apdu(&mut mock, &mut backend, &mut session, &command);
    assert!(matches!(r, Err(ScllError::TransportUnavailable)));
    let (mut mock, mut backend, mut session) = after_open(&command, &[0x90]);
    let r = send_apdu(&mut mock, &mut backend, &mut session, &command);
    assert!(matches!(r, Err(ScllError::Card { sw: 0 })));
}

#[test]
fn commands_that_no_buffer_holds_are_refused() {
    let (mut mock, mut backend, mut session) = open(&opened03());
    let long = [0u8; 600];
    let r = send_apdu(&mut mock, &mut backend, &mut session, &long);
    assert!(matches!(r, Err(ScllError::Backend(BackendError::Crypto(_)))));
    assert!(mock.is_drained());
}
