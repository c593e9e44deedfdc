//! FCI templates and status words.
use scll::workflow::session::fci_df_name;

/// A full 8-byte AID and the 5-byte RID-only prefix a caller might SELECT.
const FULL_AID: &[u8] = &[0xA0, 0x00, 0x00, 0x00, 0x62, 0x03, 0x01, 0x0C];
const PARTIAL_AID: &[u8] = &[0xA0, 0x00, 0x00, 0x00, 0x62];

/// `6F La 84 Lb <aid>` — the FCI shape a card returns to SELECT.
fn fci_wrapped(aid: &[u8]) -> Vec<u8> {
    let la = u8::try_from(aid.len()).expect("AID fits u8");
    let mut v = Vec::new();
    v.extend_from_slice(&[0x6F, la + 2, 0x84, la]);
    v.extend_from_slice(aid);
    v
}

#[test]
fn wrapped_6f_84_yields_full_aid_even_for_partial_select() {
    // SELECT used a partial AID, but the FCI carries the
    // full registered AID under tag '84' — and that is what we must recover.
    let fci = fci_wrapped(FULL_AID);
    assert_eq!(fci_df_name(&fci).unwrap(), Some(FULL_AID));
    assert_ne!(fci_df_name(&fci).unwrap(), Some(PARTIAL_AID));
}

#[test]
fn bare_84_without_outer_6f_resolves() {
    let la = u8::try_from(FULL_AID.len()).expect("AID fits u8");
    let mut bare = Vec::new();
    bare.extend_from_slice(&[0x84, la]);
    bare.extend_from_slice(FULL_AID);
    assert_eq!(fci_df_name(&bare).unwrap(), Some(FULL_AID));
}

#[test]
fn tag_84_among_siblings_inside_6f() {
    // 6F { 84 <aid> , 9F70 01 07 } — '84' must be found alongside others.
    let la = u8::try_from(FULL_AID.len()).expect("AID fits u8");
    let inner_len = 2 + FULL_AID.len() + 4; // (84 La aid) + (9F70 01 07)
    let mut fci = Vec::new();
    fci.extend_from_slice(&[0x6F, u8::try_from(inner_len).unwrap(), 0x84, la]);
    fci.extend_from_slice(FULL_AID);
    fci.extend_from_slice(&[0x9F, 0x70, 0x01, 0x07]);
    assert_eq!(fci_df_name(&fci).unwrap(), Some(FULL_AID));
}

#[test]
fn fci_without_tag_84_is_none() {
    // 6F { 85 01 FF } — no DF name ⇒ caller falls back to its SELECT target.
    let fci = [0x6F, 0x03, 0x85, 0x01, 0xFF];
    assert_eq!(fci_df_name(&fci).unwrap(), None);
}

#[test]
fn empty_fci_is_none() {
    assert_eq!(fci_df_name(&[]).unwrap(), None);
}

#[test]
fn malformed_fci_is_an_error() {
    // '84' claims 16 bytes but the value is truncated — a TLV error, which
    // `open_scp` maps to a fall-back rather than aborting the channel open.
    let bad = [0x6F, 0x05, 0x84, 0x10, 0x00];
    assert!(fci_df_name(&bad).is_err());
}
