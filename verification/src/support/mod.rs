//! A card made of a script, and a backend without cryptography.
//!
//! With these the workflows can be driven without a card: [`fixtures`] builds the
//! answers of a card, a [`Trace`] lists what is expected and what comes back, a
//! [`MockTransport`] plays it, and a [`StubBackend`] protects nothing, so that every
//! command is on the link as it was built. A [`CountingSource`] makes the keys of a
//! backend with cryptography known.
pub mod counting_source;
pub mod fixtures;
pub mod mock_transport;
pub mod replay;
pub mod stub_backend;

pub use counting_source::CountingSource;
pub use mock_transport::MockTransport;
pub use replay::Trace;
pub use stub_backend::StubBackend;
