//! Off-card management of GlobalPlatform cards, verified.
//!
//! The library drives a card through its life: it discovers the card, opens a secure
//! channel (SCP03, or SCP02 where the card has no other), puts and deletes keys, creates
//! security domains, loads packages, installs and deletes applets, sets the card's life
//! cycle state and lists what is on it.
//!
//! - [`tlv`], [`aid`], [`command`] and [`response`] turn values into bytes and back.
//! - [`scp`] holds the secure channel protocols, for any [`backend`].
//! - [`rustcrypto`] is a backend in software.
//! - [`cap`] reads CAP files and streams what is loaded of them.
//! - [`workflow`] puts these together, for any [`transport`].
//! - [`support`] is a scripted card; [`util`], [`reader`] and [`bridge`] serve the
//!   programs around the library.
//! - [`laws`] says what holds of all of these, whatever the inputs.
//!
//! A transport and a backend belong to the user, and nothing is assumed of what they
//! return. Each keeps a history of its calls that exists only in proofs; the contract of
//! a workflow says which calls were made, in which order, and what was made of every
//! possible answer.
pub mod aid;
pub mod backend;
pub mod bridge;
pub mod buffers;
mod bytes;
pub mod cap;
pub mod command;
pub mod error;
pub mod laws;
pub mod lifecycle;
pub mod limits;
pub mod model;
pub mod reader;
pub mod report;
pub mod response;
pub mod rustcrypto;
pub mod scp;
pub mod secret;
pub mod support;
pub mod tlv;
pub mod transport;
pub mod util;
pub mod workflow;
