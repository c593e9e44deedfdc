//! Status words and the texts that go with failures.
use scll::error::{BackendError, Detail, ScllError};

/// The two dedicated arms map exactly, and the mapping is *total* with
/// `Card { sw }` as the sole catch-all: every other `u16` round-trips its
/// own `sw` through `Card`. Exhaustive over the whole `u16` space.
#[test]
fn general_sw_map_is_total_with_card_as_sole_catch_all() {
    for sw in 0x0000u16..=0xFFFF {
        match ScllError::from_general_sw(sw) {
            ScllError::SecurityStatusNotSatisfied => assert_eq!(sw, 0x6982),
            ScllError::ConditionsNotSatisfied => assert_eq!(sw, 0x6985),
            ScllError::Card { sw: got } => {
                assert_eq!(got, sw, "Card must carry the input sw verbatim");
                assert!(
                    sw != 0x6982 && sw != 0x6985,
                    "dedicated SWs must not fall through"
                );
            }
            other => panic!("sw {sw:#06x} mapped to an unexpected variant: {other:?}"),
        }
    }
}

#[test]
fn dedicated_general_sws_map_to_their_variants() {
    assert!(matches!(
        ScllError::from_general_sw(0x6982),
        ScllError::SecurityStatusNotSatisfied
    ));
    assert!(matches!(
        ScllError::from_general_sw(0x6985),
        ScllError::ConditionsNotSatisfied
    ));
}

#[test]
fn success_word_is_not_special_cased() {
    // 9000 is success, not an error; the general mapper has no opinion and
    // returns the catch-all carrying the verbatim sw.
    assert!(matches!(
        ScllError::from_general_sw(0x9000),
        ScllError::Card { sw: 0x9000 }
    ));
}

#[test]
fn details_keep_a_text_of_the_right_length() {
    assert_eq!(Detail::Fixed("kdf overflow").as_str(), "kdf overflow");
    let fits = "x".repeat(64);
    assert_eq!(Detail::made(&fits).as_str(), fits);
    assert_eq!(Detail::made(&"x".repeat(65)).as_str(), "");
    // The bound is on the bytes.
    assert_eq!(Detail::made(&"\u{e9}".repeat(33)).as_str(), "");
    let slot = 7;
    let e = BackendError::Crypto(Detail::made(&format!("slot {slot} is locked")));
    assert!(matches!(e, BackendError::Crypto(d) if d.as_str() == "slot 7 is locked"));
}
