//! Directory backup and restore against a remote object store.
//!
//! A directory tree is packed into one compressed, self-indexed archive and
//! sent to a bucket; in reverse, an archive is fetched and unpacked, whole or
//! one member at a time. The crate holds the decisions and the container
//! handling; reading the disk and talking to the store are left to the caller,
//! who hands in plain values and carries out the actions handed back.

pub mod error;
pub mod fidelity;
pub mod orchestrator;
pub mod path;
pub mod path_laws;
pub mod reader;
pub mod store;
pub mod tree;
pub mod writer;
pub mod zipio;
