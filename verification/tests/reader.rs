//! Readers, frames and scripted transports.
use scll::bridge::{frame, reply_len, MAX_FRAME};
use scll::limits::{OTHER_DETAIL_MAX, RAPDU_MAX};
use scll::reader::{nth_reader, parse_selector};
use scll::support::{MockTransport, Trace};
use scll::transport::{
    other_msg, AtrAts, Transport, TransportCaps, TransportError, TransportProtocol,
};

#[test]
fn parse_selector_cases() {
    // Plain name, no index.
    assert_eq!(parse_selector("Identiv"), ("Identiv", None));
    // Name + 0-based index ("slot").
    assert_eq!(parse_selector("Identiv@0"), ("Identiv", Some(0)));
    assert_eq!(parse_selector("Identiv@1"), ("Identiv", Some(1)));
    assert_eq!(parse_selector("name@00"), ("name", Some(0)));
    // Empty name + index => match any reader, pick the index-th.
    assert_eq!(parse_selector("@2"), ("", Some(2)));
    // A full PC/SC reader name (which itself ends in the slot digits) has
    // no `@`, so it is taken verbatim.
    let full = "Identiv uTrust 3700 F CL Reader [CCID Interface] 00 00";
    assert_eq!(parse_selector(full), (full, None));
    // `@` whose suffix is not all-digits is part of the name.
    assert_eq!(parse_selector("Reader@Home 3"), ("Reader@Home 3", None));
    // Only the LAST `@<digits>` is the index.
    assert_eq!(parse_selector("Reader@Home@1"), ("Reader@Home", Some(1)));
    // Empty suffix is not an index.
    assert_eq!(parse_selector("weird@"), ("weird@", None));
    // An index that overflows `usize` degrades to a plain name match.
    let huge = "name@999999999999999999999999999999";
    assert_eq!(parse_selector(huge), (huge, None));
}

#[test]
fn selectors_with_other_letters() {
    assert_eq!(parse_selector("L\u{e9}cteur@3"), ("L\u{e9}cteur", Some(3)));
    assert_eq!(parse_selector("@\u{e9}"), ("@\u{e9}", None));
    let most = format!("x@{}", usize::MAX);
    assert_eq!(parse_selector(&most), ("x", Some(usize::MAX)));
    assert_eq!(parse_selector(""), ("", None));
}

#[test]
fn readers_are_counted_among_those_that_match() {
    let names: Vec<Vec<u8>> = ["ACS 00", "Identiv 00 00", "ACS 01", "Identiv 00 01"]
        .iter()
        .map(|n| n.as_bytes().to_vec())
        .collect();
    assert_eq!(nth_reader(&names, "Identiv", 0), Some(1));
    assert_eq!(nth_reader(&names, "Identiv", 1), Some(3));
    assert_eq!(nth_reader(&names, "Identiv", 2), None);
    assert_eq!(nth_reader(&names, "", 2), Some(2));
    assert_eq!(nth_reader(&names, " 01", 1), Some(3));
    assert_eq!(nth_reader(&names, "Identiv 00 01 and more", 0), None);
    assert_eq!(nth_reader(&[], "", 0), None);
}

#[test]
fn other_msg_is_bounded() {
    let long = "x".repeat(OTHER_DETAIL_MAX * 2);
    let TransportError::Other(s) = other_msg(&long) else {
        panic!("expected Other");
    };
    assert!(s.len() <= OTHER_DETAIL_MAX);
}

#[test]
fn short_texts_are_kept() {
    let TransportError::Other(s) = other_msg("no reader") else {
        panic!("expected Other");
    };
    assert_eq!(s, "no reader");
}

#[test]
fn frames_carry_their_length() {
    assert_eq!(
        frame(&[0x00, 0xA4, 0x04]).unwrap(),
        [0, 0, 0, 3, 0x00, 0xA4, 0x04]
    );
    assert_eq!(frame(&[]).unwrap(), [0, 0, 0, 0]);
    let long = vec![7u8; MAX_FRAME];
    let f = frame(&long).unwrap();
    assert_eq!(&f[..4], &[0, 0, 0xFF, 0xFF]);
    assert_eq!(f.len(), 4 + MAX_FRAME);
    assert!(matches!(
        frame(&vec![7u8; MAX_FRAME + 1]),
        Err(TransportError::ProtocolError)
    ));
}

#[test]
fn replies_that_are_too_long_are_refused() {
    assert_eq!(reply_len([0, 0, 0, 2]).unwrap(), 2);
    assert_eq!(reply_len([0, 0, 1, 2]).unwrap(), RAPDU_MAX);
    for field in [[0, 0, 1, 3], [0, 1, 0, 0], [1, 0, 0, 0], [0xFF; 4]] {
        assert!(matches!(
            reply_len(field),
            Err(TransportError::ProtocolError)
        ));
    }
}

const SELECT: &[u8] = &[0x00, 0xA4, 0x04, 0x00, 0x00];
const SW_OK: &[u8] = &[0x90, 0x00];

#[test]
fn round_trip_drives_real_transport_trait() {
    let mut mock = MockTransport::new(&[(SELECT, SW_OK)]);
    let t: &mut dyn Transport = &mut mock;
    let rapdu = t.transmit(SELECT).expect("transmit");
    assert_eq!(rapdu.as_slice(), SW_OK);
    assert!(mock.is_drained());
    mock.assert_drained();
}

#[test]
fn capability_protocol_and_liveness_defaults() {
    let mock = MockTransport::new(&[]);
    let caps = mock.capabilities();
    assert!(!caps.handles_t0_get_response);
    assert!(!caps.contactless);
    assert_eq!(caps.protocol, TransportProtocol::T1);
    assert_eq!(mock.protocol(), TransportProtocol::T1);
    assert!(mock.is_connected());
    assert_eq!(mock.remaining(), 0);
    assert!(mock.is_drained());
}

#[test]
fn reset_returns_synthetic_t1_atr() {
    let mut mock = MockTransport::new(&[]);
    let atr = mock.reset().expect("reset");
    assert!(atr.bytes.is_empty());
    assert_eq!(atr.protocol, TransportProtocol::T1);
}

#[test]
fn builders_override_defaults() {
    let mock = MockTransport::new(&[]).with_protocol(TransportProtocol::TCl);
    assert_eq!(mock.protocol(), TransportProtocol::TCl);
}

#[test]
fn every_builder_overrides_its_own_default() {
    let caps = TransportCaps {
        handles_t0_get_response: true,
        protocol: TransportProtocol::T0,
        contactless: true,
    };
    let atr = AtrAts { bytes: vec![0x3B, 0x00], protocol: TransportProtocol::T0 };
    let mut mock = MockTransport::new(&[(SELECT, SW_OK)]).with_caps(caps).with_atr(atr);
    assert_eq!(mock.capabilities(), caps);
    assert_eq!(mock.reset().unwrap().bytes, [0x3B, 0x00]);
    assert_eq!(mock.protocol(), TransportProtocol::T1);
    assert_eq!(mock.remaining(), 1);
}

#[test]
fn a_script_is_not_left() {
    let mut mock = MockTransport::new(&[(SELECT, SW_OK)]);
    assert!(matches!(
        mock.transmit(&[0xDE, 0xAD]),
        Err(TransportError::ProtocolError)
    ));
    assert_eq!(mock.remaining(), 1);
    assert!(mock.transmit(SELECT).is_ok());
    assert!(matches!(
        mock.transmit(SELECT),
        Err(TransportError::ProtocolError)
    ));
}

#[test]
fn traces_are_played_from_their_beginning() {
    let trace = Trace::new().step(SELECT, SW_OK).step(&[1], &[2, 3]);
    assert_eq!(trace.len(), 2);
    assert!(!trace.is_empty());
    assert!(Trace::default().is_empty());
    for _ in 0..2 {
        let mut mock = trace.mock();
        assert!(mock.transmit(SELECT).is_ok());
        assert_eq!(mock.transmit(&[1]).unwrap().as_slice(), &[2, 3]);
        assert!(mock.is_drained());
    }
}
