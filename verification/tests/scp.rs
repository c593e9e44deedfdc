//! The choice of a secure channel.
use scll::model::ScpVariant;
use scll::scp::select;

#[test]
fn prefers_highest_scp03() {
    let adv = [
        ScpVariant::Scp02 { i_param: 0x55 },
        ScpVariant::Scp03 { i_param: 0x30 },
        ScpVariant::Scp03 { i_param: 0x70 },
    ];
    assert_eq!(
        select(&adv, None),
        Some(ScpVariant::Scp03 { i_param: 0x70 })
    );
}

#[test]
fn falls_back_to_scp02_when_no_scp03() {
    let adv = [ScpVariant::Scp02 { i_param: 0x55 }];
    assert_eq!(
        select(&adv, None),
        Some(ScpVariant::Scp02 { i_param: 0x55 })
    );
}

#[test]
fn ignores_out_of_scope_scp03_i() {
    // An SCP03 i with an out-of-scope bit (0x04 = RFU) is not selectable;
    // SCP02 wins instead. (S8/S16 × random/pseudo configs ARE in scope.)
    let adv = [
        ScpVariant::Scp03 { i_param: 0x04 },
        ScpVariant::Scp02 { i_param: 0x15 },
    ];
    assert_eq!(
        select(&adv, None),
        Some(ScpVariant::Scp02 { i_param: 0x15 })
    );
}

#[test]
fn selects_s16_scp03() {
    // S16 SCP03 (0x78) is in scope and preferred over SCP02.
    let adv = [
        ScpVariant::Scp02 { i_param: 0x55 },
        ScpVariant::Scp03 { i_param: 0x78 },
    ];
    assert_eq!(
        select(&adv, None),
        Some(ScpVariant::Scp03 { i_param: 0x78 })
    );
}

#[test]
fn selects_random_challenge_scp03() {
    // Random-challenge SCP03 (0x60) is in scope and preferred over SCP02.
    let adv = [
        ScpVariant::Scp02 { i_param: 0x55 },
        ScpVariant::Scp03 { i_param: 0x60 },
    ];
    assert_eq!(
        select(&adv, None),
        Some(ScpVariant::Scp03 { i_param: 0x60 })
    );
}

#[test]
fn force_overrides_selection() {
    let adv = [ScpVariant::Scp03 { i_param: 0x70 }];
    let forced = ScpVariant::Scp02 { i_param: 0x55 };
    assert_eq!(select(&adv, Some(forced)), Some(forced));
}

#[test]
fn empty_yields_none() {
    assert_eq!(select(&[], None), None);
}
