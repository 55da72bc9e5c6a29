//! The core of an event listener: a gateway that takes events in JSON
//! envelopes over HTTP, validates them against the schema of their version,
//! and publishes each event to a message broker.
//!
//! This crate holds what the gateway decides, with contracts that Verus
//! proves:
//!
//! - [`version`] and [`decimal`]: versions and their text;
//! - [`registry`] and [`schema`]: the schemas that are registered, by version;
//! - [`resolver`]: which registered version applies to a request;
//! - [`http_server`]: whether a request is valid, which events it holds, and
//!   what is answered;
//! - [`kafka`]: the records for the broker, and the accounting of their
//!   delivery;
//! - [`json`]: the calls into `serde_json`, by which documents are read and
//!   printed;
//! - [`ves`]: the errors that a rejected request is answered with;
//! - [`varint`]: variable-length integers.
//!
//! Reading and compiling JSON is left to `serde_json` and `jsonschema`. What
//! they return is given a name, and the contracts here say what the gateway
//! does with it. The server, the broker client and the queue between them are
//! not part of this crate.

pub mod decimal;
pub mod http_server;
pub mod json;
pub mod kafka;
pub mod registry;
pub mod resolver;
pub mod schema;
pub mod types;
pub mod utils;
pub mod varint;
pub mod version;
pub mod ves;

pub use varint::Varint;
pub use version::SemVer;
