//! Keys, privileges and reports in the form in which people write them.
pub mod hex;
pub mod keys;
pub mod privileges;
pub mod text;

pub use hex::HexSlice;
pub use keys::{decode_key_set, parse_key_hex, required_role_key_set, KeySet};
pub use privileges::Privileges;
