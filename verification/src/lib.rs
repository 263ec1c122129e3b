//! One-time import of a node's pruning-point UTXO set into a relational
//! target: network identity checks, locating the active consensus store,
//! decoding its records, and loading them all-or-nothing behind a
//! write-once metadata row.

pub mod codec;
pub mod error;
pub mod extractor;
pub mod loader;
pub mod locator;
pub mod network;
pub mod orchestrator;
pub mod reset;
pub mod snapshot;
pub mod store;
pub mod text;
pub mod utxo;
pub mod utils;
