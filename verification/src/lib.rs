//! A two-node URL shortener core: deterministic short codes, a code-to-URL
//! store with bounded collision handling, and the replication of accepted
//! mappings to a peer node.
//!
//! - [`codegen`] normalizes a URL and assigns its initial code.
//! - [`store`] holds the mapping of one node.
//! - [`coordinator`] serves a write (claim a code, moving on after
//!   collisions) and a read (resolve a code).
//! - [`replication`] carries an accepted mapping to the peer and applies it
//!   there.
//! - [`node`] ties these to the requests a node receives and the answers it
//!   gives. Network and locking are left to the program around the library:
//!   it hands in what arrived and carries out what is handed back.
//! - [`laws`] states what holds across several requests and nodes.

pub mod codegen;
pub mod coordinator;
pub mod decimal;
pub mod laws;
pub mod model;
pub mod node;
pub mod replication;
pub mod store;
