//! What holds of the library's results, whatever the inputs.
//!
//! The contracts of the library say what each operation does. The laws here say what
//! comes of it: octet by octet where a card reads the result, number by number where a
//! card sends one, and by what undoes what.
pub mod archive;
pub mod channel02;
pub mod channel03;
pub mod ciphers;
pub mod commands;
pub mod discovery;
pub mod exchanges;
pub mod failures;
pub mod keystore;
pub mod management;
pub mod objects;
pub mod octets;
pub mod opening;
pub mod provisioning;
pub mod readers;
pub mod records;
pub mod responses;
pub mod status;
pub mod texts;
