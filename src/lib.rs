//! Remote-console client library: the message protocol spoken with a game
//! server, and the decisions of a console session over it.
//!
//! - `protocol`: envelopes of tagged content and their JSON encoding.
//! - `session`: the state of one connection, its outbound queue, and what
//!   each inbound frame means for the log.
//! - `config`: server entries as the user keeps them.
//! - `json` and `text`: the JSON boundary to serde_json, and plain text helpers.
pub mod config;
pub mod json;
pub mod protocol;
pub mod session;
pub mod text;
