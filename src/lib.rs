//! Keeps a workspace of browser tabs consistent across several replicas: a browser, a
//! JSON file, a directory tree and socket clients.
//!
//! - `model`: the canonical workspace, a multiset of URLs, its actions and the diff that
//!   converges one snapshot into another.
//! - `keyed`: the variant whose tabs are told apart by name.
//! - `bus`: envelopes tagged with the replica that produced them, and the broadcast that
//!   hands each to every other replica.
//! - `adapter`: the reconcile and receive steps that every replica takes.
//! - `manager`: the canonical workspace together with its bus.
//! - `wire`: the socket messages and the persisted document, over parsed JSON.
//! - `fs_layout`: the directory tree, from watch notifications to actions and back.

pub mod adapter;
pub mod bus;
pub mod fs_layout;
pub mod keyed;
pub mod manager;
pub mod model;
pub mod wire;
