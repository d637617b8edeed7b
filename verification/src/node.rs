//! The record kept for one node of the prefix trie.

use vstd::prelude::*;

verus! {

/// The record of one trie node: the characters that lead to its children and,
/// where a stored key ends at this node, that key in full.
#[derive(Debug, Clone, PartialEq, Eq)]
pub struct TrieNode {
    pub children: Vec<char>,
    pub key: Option<String>,
}

/// The mathematical value of a [`TrieNode`].
pub struct NodeView {
    pub children: Seq<char>,
    pub key: Option<Seq<char>>,
}

/// The test that keeps every character but `c`.
pub open spec fn other_than(c: char) -> spec_fn(char) -> bool {
    |x: char| x != c
}

/// The view of an optional string.
pub open spec fn text_of(s: Option<String>) -> Option<Seq<char>> {
    match s {
        Some(t) => Some(t@),
        None => None,
    }
}

impl View for TrieNode {
    type V = NodeView;

    open spec fn view(&self) -> NodeView {
        NodeView { children: self.children@, key: text_of(self.key) }
    }
}

impl NodeView {
    /// The node that a path has before anything was stored under it.
    pub open spec fn blank() -> NodeView {
        NodeView { children: Seq::empty(), key: None }
    }

    /// A node is dead when no key ends at it and no child hangs below it.
    pub open spec fn dead(self) -> bool {
        self.key is None && self.children.len() == 0
    }

    /// The node with `c` registered as a child, once.
    pub open spec fn linked(self, c: char) -> NodeView {
        if self.children.contains(c) {
            self
        } else {
            NodeView { children: self.children.push(c), key: self.key }
        }
    }

    /// The node without any child `c`.
    pub open spec fn unlinked(self, c: char) -> NodeView {
        NodeView { children: self.children.filter(other_than(c)), key: self.key }
    }

    /// The node with `k` as the key that ends here.
    pub open spec fn marked(self, k: Seq<char>) -> NodeView {
        NodeView { children: self.children, key: Some(k) }
    }

    /// The node with no key ending here.
    pub open spec fn unmarked(self) -> NodeView {
        NodeView { children: self.children, key: None }
    }
}

impl TrieNode {
    /// A node with no children and no key.
    pub fn empty() -> (node: TrieNode)
        ensures
            node@ == NodeView::blank(),
    {
        TrieNode { children: Vec::new(), key: None }
    }

    /// Whether `c` leads to a child of this node.
    pub fn has_child(&self, c: char) -> (found: bool)
        ensures
            found == self@.children.contains(c),
    {
        let mut i: usize = 0;
        while i < self.children.len()
            invariant
                i <= self.children.len(),
                forall|j: int| 0 <= j < i ==> self.children@[j] != c,
            decreases self.children.len() - i,
        {
            if self.children[i] == c {
                return true;
            }
            i += 1;
        }
        false
    }

    /// Registers `c` as a child, unless it is one already.
    pub fn add_child(&mut self, c: char)
        ensures
            final(self)@ == old(self)@.linked(c),
    {
        if !self.has_child(c) {
            self.children.push(c);
        }
    }

    /// Drops `c` from the children.
    pub fn remove_child(&mut self, c: char)
        ensures
            final(self)@ == old(self)@.unlinked(c),
    {
        let mut kept: Vec<char> = Vec::new();
        let mut i: usize = 0;
        while i < self.children.len()
            invariant
                i <= self.children.len(),
                kept@ == self.children@.take(i as int).filter(other_than(c)),
            decreases self.children.len() - i,
        {
            proof {
                let s = self.children@;
                assert(s.take(i + 1).drop_last() == s.take(i as int));
                reveal(Seq::filter);
            }
            if self.children[i] != c {
                kept.push(self.children[i]);
            }
            i += 1;
        }
        proof {
            assert(self.children@.take(i as int) == self.children@);
        }
        self.children = kept;
    }

    /// Whether nothing is left of this node: no key and no children.
    pub fn is_dead(&self) -> (dead: bool)
        ensures
            dead == self@.dead(),
    {
        self.key.is_none() && self.children.len() == 0
    }
}

} // verus!
