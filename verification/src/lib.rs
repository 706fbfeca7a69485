//! An administrative bridge for broker metadata.
//!
//! Operators list, create and delete users and topics through this crate,
//! while the authoritative copy of that metadata lives in a remote placement
//! service. Nothing here performs I/O: each operation is split into the
//! request that has to be sent and the treatment of the reply that came back,
//! and every function carries a contract that Verus proves.

pub mod error;
pub mod log;
pub mod maps;
pub mod query;
pub mod response;
pub mod text;
pub mod topic;
pub mod user;
