//! Enumerating the keys under a prefix: a traversal that owns its stack of
//! paths and reads one node for each round trip.

use vstd::prelude::*;
use vstd::string::{StrSliceExecFns, StringExecFns};
use crate::keys::{master_trie, node_name, node_text, push_char};
use crate::migration::{begins_with, has_prefix};
use crate::node::text_of;
use crate::script::{node_in, take_node};
use crate::store::{texts, ErrorView, Kind, Reply, ReplyView, Request, RequestView, StoreError};
use crate::trie::PrefixTrie;

verus! {

/// A traversal of the trie under way: the paths still to visit, last pushed
/// first, and the path whose node is being read.
#[derive(Debug)]
pub struct PrefixTrieStream {
    pub prefix: String,
    pub queue: Vec<String>,
    pub current: Option<String>,
}

/// The mathematical value of a [`PrefixTrieStream`]; `namespace` is that of
/// the trie.
pub struct StreamView {
    pub namespace: Seq<char>,
    pub queue: Seq<Seq<char>>,
    pub current: Option<Seq<char>>,
}

impl View for PrefixTrieStream {
    type V = StreamView;

    open spec fn view(&self) -> StreamView {
        StreamView {
            namespace: self.prefix@,
            queue: texts(self.queue@),
            current: text_of(self.current),
        }
    }
}

/// The paths one character below `path`, in the order of `children`.
pub open spec fn child_paths(path: Seq<char>, children: Seq<char>) -> Seq<Seq<char>> {
    Seq::new(children.len(), |i: int| path.push(children[i]))
}

/// The view of an optional request.
pub open spec fn request_of(request: Option<Request>) -> Option<RequestView> {
    match request {
        Some(r) => Some(r@),
        None => None,
    }
}

/// The view of what a traversal step yields.
pub open spec fn yield_of(out: Result<Option<String>, StoreError>) -> Result<
    Option<Seq<char>>,
    ErrorView,
> {
    match out {
        Ok(k) => Ok(text_of(k)),
        Err(e) => Err(e@),
    }
}

impl StreamView {
    /// Takes the path pushed last off the stack and asks for its node;
    /// `None` where the stack is empty and the traversal over.
    pub open spec fn poll(self) -> (StreamView, Option<RequestView>) {
        if self.queue.len() == 0 {
            (StreamView { namespace: self.namespace, queue: self.queue, current: None }, None)
        } else {
            (
                StreamView {
                    namespace: self.namespace,
                    queue: self.queue.drop_last(),
                    current: Some(self.queue.last()),
                },
                Some(
                    RequestView::Get {
                        key: node_text(self.namespace, self.queue.last()),
                        kind: Kind::Node,
                    },
                ),
            )
        }
    }

    /// Takes the node that was asked for: its children's paths go onto the
    /// stack, and the key that ends at it, if any, is yielded. A path
    /// without a node yields nothing.
    pub open spec fn absorb(self, reply: ReplyView) -> (
        StreamView,
        Result<Option<Seq<char>>, ErrorView>,
    ) {
        let rest = StreamView { namespace: self.namespace, queue: self.queue, current: None };
        match self.current {
            None => (rest, Ok(None)),
            Some(path) => match node_in(reply) {
                Err(e) => (rest, Err(e)),
                Ok(None) => (rest, Ok(None)),
                Ok(Some(node)) => (
                    StreamView {
                        namespace: self.namespace,
                        queue: self.queue + child_paths(path, node.children),
                        current: None,
                    },
                    Ok(node.key),
                ),
            },
        }
    }
}

impl PrefixTrieStream {
    /// The next read of the traversal, or `None` when it is over.
    pub fn poll(&mut self) -> (request: Option<Request>)
        ensures
            (final(self)@, request_of(request)) == old(self)@.poll(),
    {
        let ghost before = self.queue@;
        match self.queue.pop() {
            Some(path) => {
                let request = Request::Get {
                    key: node_name(self.prefix.as_str(), path.as_str()),
                    kind: Kind::Node,
                };
                self.current = Some(path);
                assert(texts(self.queue@) =~= texts(before).drop_last());
                Some(request)
            },
            None => {
                self.current = None;
                None
            },
        }
    }

    /// Takes the store's reply to the read that `poll` asked for, and yields
    /// the key that ends at the node read, if any.
    pub fn absorb(&mut self, reply: Reply) -> (out: Result<Option<String>, StoreError>)
        ensures
            (final(self)@, yield_of(out)) == old(self)@.absorb(reply@),
    {
        let mut current: Option<String> = None;
        core::mem::swap(&mut self.current, &mut current);
        match current {
            None => Ok(None),
            Some(path) => match take_node(reply) {
                Err(e) => Err(e),
                Ok(None) => Ok(None),
                Ok(Some(node)) => {
                    self.push_children(&path, &node.children);
                    Ok(node.key)
                },
            },
        }
    }

    /// Pushes the paths one character below `path` onto the stack.
    fn push_children(&mut self, path: &String, children: &Vec<char>)
        ensures
            final(self).prefix == old(self).prefix,
            final(self).current == old(self).current,
            texts(final(self).queue@) == texts(old(self).queue@) + child_paths(path@, children@),
    {
        let ghost before = texts(self.queue@);
        let mut i: usize = 0;
        while i < children.len()
            invariant
                i <= children.len(),
                self.prefix == old(self).prefix,
                self.current == old(self).current,
                texts(self.queue@) == before + child_paths(path@, children@).take(i as int),
            decreases children.len() - i,
        {
            let mut below = path.clone();
            push_char(&mut below, children[i]);
            let ghost queued = texts(self.queue@);
            self.queue.push(below);
            assert(texts(self.queue@) =~= queued.push(path@.push(children@[i as int])));
            assert(child_paths(path@, children@).take(i + 1) =~= child_paths(
                path@,
                children@,
            ).take(i as int).push(path@.push(children@[i as int])));
            assert(texts(self.queue@) =~= before + child_paths(path@, children@).take(i + 1));
            i += 1;
        }
        assert(child_paths(path@, children@).take(i as int) =~= child_paths(path@, children@));
    }
}

impl PrefixTrie {
    /// A traversal of every key that begins with `prefix`.
    pub fn find_by_prefix(&self, prefix: &str) -> (stream: PrefixTrieStream)
        ensures
            stream@ == (StreamView { namespace: self@, queue: seq![prefix@], current: None }),
    {
        let mut queue: Vec<String> = Vec::new();
        queue.push(String::from_str(prefix));
        assert(texts(queue@) =~= seq![prefix@]);
        PrefixTrieStream { prefix: self.prefix.clone(), queue, current: None }
    }

    /// The read of the root node, whose reply seeds `all`.
    pub fn root_request(&self) -> (request: Request)
        ensures
            request@ == (RequestView::Get {
                key: node_text(self@, Seq::empty()),
                kind: Kind::Node,
            }),
    {
        let path = String::new();
        Request::Get { key: node_name(self.prefix.as_str(), path.as_str()), kind: Kind::Node }
    }

    /// A traversal of every key in the trie, seeded with the children of the
    /// root as the store answered for it: the traversal from the empty
    /// prefix without the root itself.
    pub fn all(&self, root: Reply) -> (out: Result<PrefixTrieStream, StoreError>)
        ensures
            match all_from(self@, root@) {
                Ok(stream) => out is Ok && out->Ok_0@ == stream,
                Err(e) => out is Err && out->Err_0@ == e,
            },
    {
        let mut stream = PrefixTrieStream {
            prefix: self.prefix.clone(),
            queue: Vec::new(),
            current: None,
        };
        assert(texts(stream.queue@) =~= Seq::<Seq<char>>::empty());
        match take_node(root) {
            Err(e) => Err(e),
            Ok(None) => Ok(stream),
            Ok(Some(node)) => {
                let path = String::new();
                stream.push_children(&path, &node.children);
                assert(texts(stream.queue@) =~= child_paths(Seq::empty(), node.children@));
                Ok(stream)
            },
        }
    }
}

/// The traversal of every key of a trie, for the store's answer to the read
/// of its root: the stack holds the paths of the root's children.
pub open spec fn all_from(namespace: Seq<char>, root: ReplyView) -> Result<StreamView, ErrorView> {
    match node_in(root) {
        Ok(Some(node)) => Ok(
            StreamView {
                namespace,
                queue: child_paths(Seq::empty(), node.children),
                current: None,
            },
        ),
        Ok(None) => Ok(StreamView { namespace, queue: Seq::empty(), current: None }),
        Err(e) => Err(e),
    }
}

/// The traversal of every key is the traversal from the empty prefix after
/// its first step: the root was read and its children pushed, and only the
/// root's own mark is not yielded.
pub proof fn lemma_all_skips_root(namespace: Seq<char>, root: ReplyView)
    ensures
        ({
            let start = StreamView { namespace, queue: seq![Seq::<char>::empty()], current: None };
            &&& start.poll().1 == Some(
                RequestView::Get { key: node_text(namespace, Seq::empty()), kind: Kind::Node },
            )
            &&& match all_from(namespace, root) {
                Ok(stream) => start.poll().0.absorb(root).0 == stream,
                Err(e) => start.poll().0.absorb(root).1 == Err::<Option<Seq<char>>, ErrorView>(e),
            }
        }),
{
    let start = StreamView { namespace, queue: seq![Seq::<char>::empty()], current: None };
    assert(start.queue.drop_last() =~= Seq::<Seq<char>>::empty());
    match node_in(root) {
        Ok(Some(node)) => {
            assert(Seq::<Seq<char>>::empty() + child_paths(Seq::empty(), node.children)
                =~= child_paths(Seq::empty(), node.children));
        },
        _ => {},
    }
}

/// The enumeration of the entities of one model: a traversal of the master
/// trie under the model's prefix that yields each entity key without it.
#[derive(Debug)]
pub struct ModelStream {
    pub inner: PrefixTrieStream,
    pub prefix: String,
}

/// What is left of `full` after the `prefix` it begins with; a text that
/// does not begin with it is no entry of the model.
pub open spec fn stripped(full: Seq<char>, prefix: Seq<char>) -> Result<Seq<char>, ErrorView> {
    if begins_with(full, prefix) {
        Ok(full.skip(prefix.len() as int))
    } else {
        Err(ErrorView::DecodeError)
    }
}

/// What an enumeration yields for what the traversal below it yielded.
pub open spec fn model_yield(inner: Result<Option<Seq<char>>, ErrorView>, prefix: Seq<char>)
    -> Result<Option<Seq<char>>, ErrorView> {
    match inner {
        Ok(Some(full)) => match stripped(full, prefix) {
            Ok(key) => Ok(Some(key)),
            Err(e) => Err(e),
        },
        Ok(None) => Ok(None),
        Err(e) => Err(e),
    }
}

impl ModelStream {
    /// The enumeration of the entries of the master trie under `prefix`.
    pub fn new(prefix: String) -> (stream: ModelStream)
        ensures
            stream.prefix@ == prefix@,
            stream.inner@ == (StreamView {
                namespace: crate::keys::master_trie_text(),
                queue: seq![prefix@],
                current: None,
            }),
    {
        let namespace = master_trie();
        let trie = PrefixTrie::new(namespace.as_str());
        let inner = trie.find_by_prefix(prefix.as_str());
        ModelStream { inner, prefix }
    }

    /// The next read of the enumeration, or `None` when it is over.
    pub fn poll(&mut self) -> (request: Option<Request>)
        ensures
            final(self).prefix == old(self).prefix,
            (final(self).inner@, request_of(request)) == old(self).inner@.poll(),
    {
        self.inner.poll()
    }

    /// Takes the store's reply to the read that `poll` asked for, and yields
    /// the entity key that ends at the node read, if any, without the
    /// model's prefix.
    pub fn absorb(&mut self, reply: Reply) -> (out: Result<Option<String>, StoreError>)
        ensures
            final(self).prefix == old(self).prefix,
            final(self).inner@ == old(self).inner@.absorb(reply@).0,
            yield_of(out) == model_yield(old(self).inner@.absorb(reply@).1, old(self).prefix@),
    {
        match self.inner.absorb(reply) {
            Ok(Some(full)) => {
                if has_prefix(full.as_str(), self.prefix.as_str()) {
                    let from = self.prefix.as_str().unicode_len();
                    let to = full.as_str().unicode_len();
                    let rest = full.as_str().substring_char(from, to);
                    assert(full@.subrange(from as int, to as int) == full@.skip(from as int));
                    Ok(Some(String::from_str(rest)))
                } else {
                    Err(StoreError::DecodeError)
                }
            },
            Ok(None) => Ok(None),
            Err(e) => Err(e),
        }
    }
}

} // verus!
