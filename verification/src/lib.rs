//! Entity persistence over a transactional key-value store that offers only
//! `get`, `put` and `delete`.
//!
//! A record is stored as one row for each field, an entry in a prefix trie
//! by which the records of a model are enumerated, and an entry in a
//! secondary index for each indexed field; a ledger for each model tells
//! which migrations were applied.
//!
//! The library never talks to the store itself. Every operation is a cursor
//! that names the next [`Request`] and takes the store's [`Reply`]; whoever
//! owns the transaction performs the request and hands the reply back. What
//! an operation does to the store is stated over a mathematical model of it,
//! a map from key text to payload, and the laws that hold of saving,
//! deleting, loading and enumerating are proved over that model.

pub mod cursor;
pub mod entity;
pub mod frame;
pub mod index;
pub mod keys;
pub mod laws;
pub mod load;
pub mod lookup;
pub mod migration;
pub mod node;
pub mod script;
pub mod store;
pub mod stream;
pub mod trie;
pub mod trie_laws;
pub mod walk;

pub use cursor::{Progress, WriteCursor};
pub use entity::{Entity, Field, IndexKind, Model};
pub use node::TrieNode;
pub use store::{Kind, Payload, Reply, Request, StoreError};
pub use stream::{ModelStream, PrefixTrieStream};
pub use trie::PrefixTrie;
