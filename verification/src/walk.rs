//! What a traversal of the trie yields, whatever order it takes.

use vstd::prelude::*;
use crate::store::{respond, ErrorView, StoreModel};
use crate::stream::{child_paths, StreamView};
use crate::trie_laws::node_at;

verus! {

/// A traversal run to its end against a faithful store: the keys it yields,
/// in the order in which it yields them, or the error that ended it.
/// `fuel` bounds the number of nodes read; `None` where it does not suffice.
pub open spec fn walk(s: StoreModel, at: StreamView, fuel: nat) -> Option<
    Result<Seq<Seq<char>>, ErrorView>,
>
    decreases fuel,
{
    if at.queue.len() == 0 {
        Some(Ok(Seq::empty()))
    } else if fuel == 0 {
        None
    } else {
        let (polled, request) = at.poll();
        let (next, found) = polled.absorb(respond(s, request->0).1);
        match found {
            Err(e) => Some(Err(e)),
            Ok(key) => match walk(s, next, (fuel - 1) as nat) {
                Some(Ok(rest)) => Some(
                    Ok(
                        match key {
                            Some(k) => seq![k] + rest,
                            None => rest,
                        },
                    ),
                ),
                other => other,
            },
        }
    }
}

/// Every node from the one at `from` down to the one above `to` is there
/// and lists the next character on the way to `to` as a child.
pub open spec fn linked(s: StoreModel, namespace: Seq<char>, from: Seq<char>, to: Seq<char>)
    -> bool {
    &&& from.len() <= to.len()
    &&& to.take(from.len() as int) == from
    &&& forall|j: int|
        from.len() <= j < to.len() ==> (#[trigger] node_at(s, namespace, to.take(j))) is Some
            && node_at(s, namespace, to.take(j))->0.children.contains(to[j])
}

/// The key `key` ends at a node that is linked from the node at `from`.
pub open spec fn marked_below(s: StoreModel, namespace: Seq<char>, from: Seq<char>, key: Seq<char>)
    -> bool {
    exists|path: Seq<char>|
        linked(s, namespace, from, path) && (#[trigger] node_at(s, namespace, path)) is Some
            && node_at(s, namespace, path)->0.key == Some(key)
}

/// A path that is linked from `from` stays so one character further down,
/// where its node lists that character.
proof fn lemma_linked_down(
    s: StoreModel,
    namespace: Seq<char>,
    from: Seq<char>,
    path: Seq<char>,
    c: char,
)
    requires
        linked(s, namespace, from, path),
        node_at(s, namespace, path) is Some,
        node_at(s, namespace, path)->0.children.contains(c),
    ensures
        linked(s, namespace, from, path.push(c)),
{
    let to = path.push(c);
    assert(to.take(path.len() as int) =~= path);
    assert(to.take(from.len() as int) =~= path.take(from.len() as int));
    assert forall|j: int| from.len() <= j < to.len() implies (#[trigger] node_at(
        s,
        namespace,
        to.take(j),
    )) is Some && node_at(s, namespace, to.take(j))->0.children.contains(to[j]) by {
        if j < path.len() {
            assert(to.take(j) =~= path.take(j));
        }
    }
}

/// A traversal that ends yields every key that ends at a node linked from
/// a path on its stack.
proof fn lemma_walk_complete(
    s: StoreModel,
    at: StreamView,
    fuel: nat,
    i: int,
    path: Seq<char>,
    key: Seq<char>,
)
    requires
        walk(s, at, fuel) is Some,
        walk(s, at, fuel)->0 is Ok,
        0 <= i < at.queue.len(),
        linked(s, at.namespace, at.queue[i], path),
        node_at(s, at.namespace, path) is Some,
        node_at(s, at.namespace, path)->0.key == Some(key),
    ensures
        walk(s, at, fuel)->0->Ok_0.contains(key),
    decreases fuel,
{
    let (polled, request) = at.poll();
    let (next, found) = polled.absorb(respond(s, request->0).1);
    let rest = walk(s, next, (fuel - 1) as nat)->0->Ok_0;
    let list = walk(s, at, fuel)->0->Ok_0;
    let top = at.queue.last();
    if i == at.queue.len() - 1 {
        assert(path.take(path.len() as int) =~= path);
        if top == path {
            assert(list[0] == key);
        } else {
            assert(top.len() < path.len()) by {
                if top.len() == path.len() {
                    assert(path.take(top.len() as int) =~= path);
                }
            }
            let node = node_at(s, at.namespace, path.take(top.len() as int))->0;
            let c = path[top.len() as int];
            let at_child = choose|x: int| 0 <= x < node.children.len() && node.children[x] == c;
            let below = child_paths(top, node.children);
            assert(below[at_child] == top.push(c));
            assert(top.push(c) =~= path.take(top.len() as int + 1));
            assert(linked(s, at.namespace, top.push(c), path)) by {
                assert(path.take(top.len() as int + 1) == top.push(c));
            }
            lemma_walk_complete(s, next, (fuel - 1) as nat, at.queue.len() - 1 + at_child, path, key);
            lemma_kept(found->Ok_0, rest, key);
        }
    } else {
        lemma_walk_complete(s, next, (fuel - 1) as nat, i, path, key);
        lemma_kept(found->Ok_0, rest, key);
    }
}

/// What a traversal yielded later is among all that it yielded.
proof fn lemma_kept(first: Option<Seq<char>>, rest: Seq<Seq<char>>, key: Seq<char>)
    requires
        rest.contains(key),
    ensures
        (match first {
            Some(k) => seq![k] + rest,
            None => rest,
        }).contains(key),
{
    if first is Some {
        let j = choose|j: int| 0 <= j < rest.len() && rest[j] == key;
        assert((seq![first->0] + rest)[j + 1] == key);
    }
}

/// A traversal yields only keys that end at nodes linked from `origin`,
/// where every path on its stack is linked from there.
proof fn lemma_walk_sound(
    s: StoreModel,
    at: StreamView,
    fuel: nat,
    origin: Seq<char>,
    key: Seq<char>,
)
    requires
        walk(s, at, fuel) is Some,
        walk(s, at, fuel)->0 is Ok,
        walk(s, at, fuel)->0->Ok_0.contains(key),
        forall|i: int|
            0 <= i < at.queue.len() ==> linked(s, at.namespace, origin, #[trigger] at.queue[i]),
    ensures
        marked_below(s, at.namespace, origin, key),
    decreases fuel,
{
    if at.queue.len() > 0 {
        let (polled, request) = at.poll();
        let (next, found) = polled.absorb(respond(s, request->0).1);
        let rest = walk(s, next, (fuel - 1) as nat)->0->Ok_0;
        let list = walk(s, at, fuel)->0->Ok_0;
        let top = at.queue.last();
        let here = node_at(s, at.namespace, top);
        if found->Ok_0 == Some(key) {
            assert(here is Some && here->0.key == Some(key));
            assert(linked(s, at.namespace, origin, top));
        } else {
            assert(rest.contains(key)) by {
                let j = choose|j: int| 0 <= j < list.len() && list[j] == key;
                if found->Ok_0 is Some {
                    assert(rest[j - 1] == key);
                } else {
                    assert(rest[j] == key);
                }
            }
            assert forall|i: int| 0 <= i < next.queue.len() implies linked(
                s,
                at.namespace,
                origin,
                #[trigger] next.queue[i],
            ) by {
                if i < at.queue.len() - 1 {
                    assert(next.queue[i] == at.queue[i]);
                } else {
                    let x = i - (at.queue.len() - 1);
                    lemma_linked_down(s, at.namespace, origin, top, here->0.children[x]);
                }
            }
            lemma_walk_sound(s, next, (fuel - 1) as nat, origin, key);
        }
    }
}

/// Enumeration, whatever its order: a traversal from `prefix` that ends
/// without an error yields a key if and only if the key ends at a node
/// that is linked from the node at `prefix`.
pub proof fn lemma_traversal_yields(
    s: StoreModel,
    namespace: Seq<char>,
    prefix: Seq<char>,
    fuel: nat,
    key: Seq<char>,
)
    requires
        walk(s, StreamView { namespace, queue: seq![prefix], current: None }, fuel) is Some,
        walk(s, StreamView { namespace, queue: seq![prefix], current: None }, fuel)->0 is Ok,
    ensures
        walk(
            s,
            StreamView { namespace, queue: seq![prefix], current: None },
            fuel,
        )->0->Ok_0.contains(key) <==> marked_below(s, namespace, prefix, key),
{
    let start = StreamView { namespace, queue: seq![prefix], current: None };
    assert(prefix.take(prefix.len() as int) =~= prefix);
    if walk(s, start, fuel)->0->Ok_0.contains(key) {
        lemma_walk_sound(s, start, fuel, prefix, key);
    }
    if marked_below(s, namespace, prefix, key) {
        let path = choose|path: Seq<char>|
            linked(s, namespace, prefix, path) && (#[trigger] node_at(s, namespace, path)) is Some
                && node_at(s, namespace, path)->0.key == Some(key);
        lemma_walk_complete(s, start, fuel, 0, path, key);
    }
}

} // verus!
