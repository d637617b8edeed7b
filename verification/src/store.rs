//! What is asked of the backing store and what it answers, and the
//! mathematical model of the store that the contracts speak of.

use vstd::prelude::*;
use crate::node::{NodeView, TrieNode};

verus! {

/// The shape in which a value is stored under a key.
#[derive(Debug, Clone, Copy, PartialEq, Eq, Structural)]
pub enum Kind {
    /// An encoded field value, or an encoded ledger.
    Bytes,
    /// The record of a trie node.
    Node,
    /// One entity key: the payload of a unique index entry.
    Key,
    /// An ordered set of entity keys: the payload of a multi index entry.
    Keys,
}

/// A value as it is handed to the store or comes back from it.
#[derive(Debug, Clone, PartialEq, Eq)]
pub enum Payload {
    Bytes(Vec<u8>),
    Node(TrieNode),
    Key(String),
    Keys(Vec<String>),
}

/// The mathematical value of a [`Payload`].
pub enum PayloadView {
    Bytes(Seq<u8>),
    Node(NodeView),
    Key(Seq<char>),
    Keys(Seq<Seq<char>>),
}

/// The views of a sequence of strings, in order.
pub open spec fn texts(v: Seq<String>) -> Seq<Seq<char>> {
    Seq::new(v.len(), |i: int| v[i]@)
}

impl View for Payload {
    type V = PayloadView;

    open spec fn view(&self) -> PayloadView {
        match *self {
            Payload::Bytes(b) => PayloadView::Bytes(b@),
            Payload::Node(n) => PayloadView::Node(n@),
            Payload::Key(k) => PayloadView::Key(k@),
            Payload::Keys(ks) => PayloadView::Keys(texts(ks@)),
        }
    }
}

impl PayloadView {
    /// The shape of this value.
    pub open spec fn kind(self) -> Kind {
        match self {
            PayloadView::Bytes(_) => Kind::Bytes,
            PayloadView::Node(_) => Kind::Node,
            PayloadView::Key(_) => Kind::Key,
            PayloadView::Keys(_) => Kind::Keys,
        }
    }
}

/// One round trip to the store, as the library asks for it.
#[derive(Debug, Clone, PartialEq, Eq)]
pub enum Request {
    /// Read the value under `key` and decode it as `kind`.
    Get { key: String, kind: Kind },
    /// Encode `value` and write it under `key`.
    Put { key: String, value: Payload },
    /// Delete whatever is under `key`.
    Delete { key: String },
}

/// The mathematical value of a [`Request`].
pub enum RequestView {
    Get { key: Seq<char>, kind: Kind },
    Put { key: Seq<char>, value: PayloadView },
    Delete { key: Seq<char> },
}

impl View for Request {
    type V = RequestView;

    open spec fn view(&self) -> RequestView {
        match *self {
            Request::Get { key, kind } => RequestView::Get { key: key@, kind },
            Request::Put { key, value } => RequestView::Put { key: key@, value: value@ },
            Request::Delete { key } => RequestView::Delete { key: key@ },
        }
    }
}

/// What the store answered to a [`Request`].
#[derive(Debug, Clone, PartialEq, Eq)]
pub enum Reply {
    /// A read found this value.
    Found(Payload),
    /// A read found nothing under the key.
    Missing,
    /// A read found bytes that do not decode as the kind asked for.
    Undecodable,
    /// A write or a delete was taken.
    Done,
    /// The store refused or failed the request.
    Failed,
}

/// The mathematical value of a [`Reply`].
pub enum ReplyView {
    Found(PayloadView),
    Missing,
    Undecodable,
    Done,
    Failed,
}

impl View for Reply {
    type V = ReplyView;

    open spec fn view(&self) -> ReplyView {
        match *self {
            Reply::Found(p) => ReplyView::Found(p@),
            Reply::Missing => ReplyView::Missing,
            Reply::Undecodable => ReplyView::Undecodable,
            Reply::Done => ReplyView::Done,
            Reply::Failed => ReplyView::Failed,
        }
    }
}

/// Why an operation gave up.
#[derive(Debug, Clone, PartialEq, Eq)]
pub enum StoreError {
    /// A value could not be encoded.
    EncodeError,
    /// A stored payload is unreadable: it does not decode as what its key holds.
    DecodeError,
    /// A field row of the entity is missing.
    NotFound { field: String },
    /// An empty key was offered to the trie.
    InvalidInput,
    /// The store failed a request.
    StoreConflict,
    /// A write was attempted on a schema version that is superseded or not
    /// backfilled yet.
    MigrationOrderError,
}

/// The mathematical value of a [`StoreError`].
pub enum ErrorView {
    EncodeError,
    DecodeError,
    NotFound { field: Seq<char> },
    InvalidInput,
    StoreConflict,
    MigrationOrderError,
}

impl View for StoreError {
    type V = ErrorView;

    open spec fn view(&self) -> ErrorView {
        match *self {
            StoreError::EncodeError => ErrorView::EncodeError,
            StoreError::DecodeError => ErrorView::DecodeError,
            StoreError::NotFound { field } => ErrorView::NotFound { field: field@ },
            StoreError::InvalidInput => ErrorView::InvalidInput,
            StoreError::StoreConflict => ErrorView::StoreConflict,
            StoreError::MigrationOrderError => ErrorView::MigrationOrderError,
        }
    }
}

impl StoreError {
    /// The name of the error kind, for messages.
    pub fn describe(&self) -> (text: String)
        ensures
            text@ == match *self {
                StoreError::EncodeError => "EncodeError"@,
                StoreError::DecodeError => "DecodeError"@,
                StoreError::NotFound { .. } => "NotFound"@,
                StoreError::InvalidInput => "InvalidInput"@,
                StoreError::StoreConflict => "StoreConflict"@,
                StoreError::MigrationOrderError => "MigrationOrderError"@,
            },
    {
        match self {
            StoreError::EncodeError => "EncodeError".to_string(),
            StoreError::DecodeError => "DecodeError".to_string(),
            StoreError::NotFound { .. } => "NotFound".to_string(),
            StoreError::InvalidInput => "InvalidInput".to_string(),
            StoreError::StoreConflict => "StoreConflict".to_string(),
            StoreError::MigrationOrderError => "MigrationOrderError".to_string(),
        }
    }
}

/// The store as the contracts see it: what is under each key.
pub type StoreModel = Map<Seq<char>, PayloadView>;

/// What a faithful store does with a request: the store afterwards and its
/// answer. A read changes nothing and finds what was last written; a value of
/// another shape than the one asked for does not decode.
pub open spec fn respond(s: StoreModel, r: RequestView) -> (StoreModel, ReplyView) {
    match r {
        RequestView::Get { key, kind } => {
            if !s.dom().contains(key) {
                (s, ReplyView::Missing)
            } else if s[key].kind() == kind {
                (s, ReplyView::Found(s[key]))
            } else {
                (s, ReplyView::Undecodable)
            }
        },
        RequestView::Put { key, value } => (s.insert(key, value), ReplyView::Done),
        RequestView::Delete { key } => (s.remove(key), ReplyView::Done),
    }
}

} // verus!
