//! Looking a key up in the trie, one node read at a time.

use vstd::prelude::*;
use vstd::string::{StrSliceExecFns, StringExecFns};
use crate::cursor::read;
use crate::keys::{node_name, node_text};
use crate::node::text_of;
use crate::script::{node_in, take_node};
use crate::store::{ErrorView, Kind, Reply, ReplyView, Request, RequestView, StoreError, StoreModel};
use crate::trie::PrefixTrie;

verus! {

/// How far a lookup has come.
#[derive(Debug, Clone, PartialEq, Eq)]
pub enum LookupStep {
    /// The store is to perform this read; its reply is handed to `resume`.
    Ask(Request),
    /// The lookup is over: the stored key, or `None` where it is not stored.
    Done(Option<String>),
    /// The lookup gave up.
    Failed(StoreError),
}

/// The mathematical value of a [`LookupStep`].
pub enum LookupStepView {
    Ask(RequestView),
    Done(Option<Seq<char>>),
    Failed(ErrorView),
}

impl View for LookupStep {
    type V = LookupStepView;

    open spec fn view(&self) -> LookupStepView {
        match *self {
            LookupStep::Ask(r) => LookupStepView::Ask(r@),
            LookupStep::Done(k) => LookupStepView::Done(text_of(k)),
            LookupStep::Failed(e) => LookupStepView::Failed(e@),
        }
    }
}

/// A lookup under way. At stage `i` below the key's length the node at the
/// path of the first `i + 1` characters is being read; at the stage of the
/// key's length the node at the full path is read once more for its mark.
#[derive(Debug)]
pub struct Lookup {
    pub namespace: String,
    pub key: String,
    pub stage: usize,
    pub over: bool,
}

/// The mathematical value of a [`Lookup`].
pub struct LookupView {
    pub namespace: Seq<char>,
    pub key: Seq<char>,
    pub stage: int,
    pub over: bool,
}

impl View for Lookup {
    type V = LookupView;

    open spec fn view(&self) -> LookupView {
        LookupView {
            namespace: self.namespace@,
            key: self.key@,
            stage: self.stage as int,
            over: self.over,
        }
    }
}

impl LookupView {
    /// The path whose node is read at the current stage.
    pub open spec fn path(self) -> Seq<char> {
        if self.stage < self.key.len() {
            self.key.take(self.stage + 1)
        } else {
            self.key
        }
    }

    /// The read of the current stage.
    pub open spec fn request(self) -> RequestView {
        RequestView::Get { key: node_text(self.namespace, self.path()), kind: Kind::Node }
    }

    /// The lookup once it has ended.
    pub open spec fn ended(self) -> LookupView {
        LookupView { namespace: self.namespace, key: self.key, stage: self.stage, over: true }
    }

    /// The lookup at its next stage.
    pub open spec fn advanced(self) -> LookupView {
        LookupView {
            namespace: self.namespace,
            key: self.key,
            stage: self.stage + 1,
            over: false,
        }
    }

    /// Takes the store's reply to the read of the current stage. A missing
    /// node ends the lookup with `None`, and so does a node on the way that
    /// does not list the character after the next as its child; the node
    /// read last gives its mark.
    pub open spec fn resume(self, reply: ReplyView) -> (LookupView, LookupStepView) {
        if self.over || self.stage > self.key.len() {
            (self.ended(), LookupStepView::Done(None))
        } else {
            match node_in(reply) {
                Err(e) => (self.ended(), LookupStepView::Failed(e)),
                Ok(None) => (self.ended(), LookupStepView::Done(None)),
                Ok(Some(node)) => if self.stage == self.key.len() {
                    (self.ended(), LookupStepView::Done(node.key))
                } else if self.stage < self.key.len() - 1 && !node.children.contains(
                    self.key[self.stage + 1],
                ) {
                    (self.ended(), LookupStepView::Done(None))
                } else {
                    (self.advanced(), LookupStepView::Ask(self.advanced().request()))
                },
            }
        }
    }
}

/// What a lookup of `key` from `stage` on finds in a faithful store.
pub open spec fn lookup_from(s: StoreModel, namespace: Seq<char>, key: Seq<char>, stage: int)
    -> Result<Option<Seq<char>>, ErrorView>
    decreases key.len() - stage,
{
    let at = LookupView { namespace, key, stage, over: false };
    if 0 <= stage <= key.len() {
        match at.resume(read(s, node_text(namespace, at.path()), Kind::Node)).1 {
            LookupStepView::Ask(_) => lookup_from(s, namespace, key, stage + 1),
            LookupStepView::Done(found) => Ok(found),
            LookupStepView::Failed(e) => Err(e),
        }
    } else {
        Ok(None)
    }
}

/// What a lookup of `key` finds in a faithful store.
pub open spec fn lookup(s: StoreModel, namespace: Seq<char>, key: Seq<char>) -> Result<
    Option<Seq<char>>,
    ErrorView,
> {
    lookup_from(s, namespace, key, 0)
}

impl Lookup {
    /// The read of the current stage.
    pub fn request(&self) -> (request: Request)
        ensures
            request@ == self@.request(),
    {
        let n = self.key.as_str().unicode_len();
        if self.stage < n {
            let path = self.key.as_str().substring_char(0, self.stage + 1);
            assert(self.key@.subrange(0, self.stage + 1) == self.key@.take(self.stage + 1));
            Request::Get { key: node_name(self.namespace.as_str(), path), kind: Kind::Node }
        } else {
            Request::Get {
                key: node_name(self.namespace.as_str(), self.key.as_str()),
                kind: Kind::Node,
            }
        }
    }

    /// Takes the store's reply to the read that was asked last, and says
    /// what comes next. Once the lookup is over every further call answers
    /// `Done(None)`.
    pub fn resume(&mut self, reply: Reply) -> (step: LookupStep)
        ensures
            (final(self)@, step@) == old(self)@.resume(reply@),
    {
        let n = self.key.as_str().unicode_len();
        if self.over || self.stage > n {
            self.over = true;
            return LookupStep::Done(None);
        }
        match take_node(reply) {
            Err(e) => {
                self.over = true;
                LookupStep::Failed(e)
            },
            Ok(None) => {
                self.over = true;
                LookupStep::Done(None)
            },
            Ok(Some(node)) => {
                if self.stage == n {
                    self.over = true;
                    LookupStep::Done(node.key)
                } else if self.stage < n - 1 && !node.has_child(
                    self.key.as_str().get_char(self.stage + 1),
                ) {
                    self.over = true;
                    LookupStep::Done(None)
                } else {
                    self.stage = self.stage + 1;
                    LookupStep::Ask(self.request())
                }
            },
        }
    }
}

impl PrefixTrie {
    /// Starts looking `key` up: the lookup and its first read.
    pub fn get(&self, key: &str) -> (out: (Lookup, Request))
        ensures
            out.0@ == (LookupView { namespace: self@, key: key@, stage: 0, over: false }),
            out.1@ == out.0@.request(),
    {
        let lookup = Lookup {
            namespace: self.prefix.clone(),
            key: String::from_str(key),
            stage: 0,
            over: false,
        };
        let request = lookup.request();
        (lookup, request)
    }
}

} // verus!
