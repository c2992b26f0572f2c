//! Core of a peer-to-peer synchronisation engine for a local note store.
//!
//! Each device keeps its own copy of notes, a tree of tags, and the tags of notes. Peers
//! exchange changes so that all devices come to hold the same, and what two devices
//! changed at once is kept for the user to decide.
//!
//! - [`store`], [`local`], [`query`], [`conflicts`]: the local store, the writes and the
//!   questions of the user, and the conflicts.
//! - [`changes`], [`feed`]: what one device tells another, and the feed of changes.
//! - [`reconcile`], [`sync`]: what is done with the changes that a peer sends.
//! - [`protocol`], [`client`]: the sync protocol, as the server and as the client.
//! - [`tls`]: fingerprints of certificates, and trust on first use.
//! - [`validation`], [`merge`], [`config`], [`models`], [`error`]: checks on what comes in,
//!   merging of texts, the configuration, the entities, the errors.
//! - [`laws`]: what holds across calls.
//!
//! Files, the database, the network and the clock of a running program are left to the
//! caller: the functions here take and return plain values.

pub mod changes;
pub mod client;
pub mod codec;
pub mod config;
pub mod conflicts;
pub mod error;
pub mod feed;
pub mod ids;
pub mod laws;
pub mod local;
pub mod merge;
pub mod models;
pub mod protocol;
pub mod query;
pub mod reconcile;
pub mod rows;
pub mod store;
pub mod sync;
pub mod tables;
pub mod text;
pub mod tls;
pub mod tree;
pub mod validation;

pub use config::Config;
pub use error::{ValidationError, VoiceError, VoiceResult};
pub use models::{Note, NoteTag, Tag};
pub use store::Store;
