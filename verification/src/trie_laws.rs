//! What holds of storing a key in the trie, removing it and looking it up,
//! whatever the store held before.

use vstd::prelude::*;
use crate::cursor::{read, script_effect, task_effect};
use crate::frame::{lemma_task_frame, same_at, task_key};
use crate::keys::node_text;
use crate::lookup::{lookup, lookup_from};
use crate::node::NodeView;
use crate::script::TaskView;
use crate::store::{ErrorView, Kind, PayloadView, StoreModel};
use crate::trie::{insert_tasks, remove_tasks};

verus! {

/// The trie node that the store holds at `path`, if it holds one.
pub open spec fn node_at(s: StoreModel, namespace: Seq<char>, path: Seq<char>) -> Option<NodeView> {
    let key = node_text(namespace, path);
    if s.dom().contains(key) {
        match s[key] {
            PayloadView::Node(n) => Some(n),
            _ => None,
        }
    } else {
        None
    }
}

/// The store holds at `path` a trie node or nothing: a read of the node
/// does not fail.
pub open spec fn readable(s: StoreModel, namespace: Seq<char>, path: Seq<char>) -> bool {
    s.dom().contains(node_text(namespace, path)) ==> s[node_text(namespace, path)] is Node
}

/// From the node at the first `from` characters of `key` down, every node
/// on the way to `key` is there and lists the next character as a child,
/// and the node at `key` is marked with it.
pub open spec fn chained(s: StoreModel, namespace: Seq<char>, key: Seq<char>, from: int) -> bool {
    &&& forall|j: int|
        from <= j < key.len() ==> (#[trigger] node_at(s, namespace, key.take(j))) is Some
            && node_at(s, namespace, key.take(j))->0.children.contains(key[j])
    &&& node_at(s, namespace, key) is Some
    &&& node_at(s, namespace, key)->0.key == Some(key)
}

/// The nodes of one trie at two paths lie under different keys.
pub proof fn lemma_nodes_apart(namespace: Seq<char>, a: Seq<char>, b: Seq<char>)
    requires
        a != b,
    ensures
        node_text(namespace, a) != node_text(namespace, b),
{
    let head = namespace + ":trie:node:"@;
    if node_text(namespace, a) == node_text(namespace, b) {
        assert((head + a).skip(head.len() as int) =~= a);
        assert((head + b).skip(head.len() as int) =~= b);
    }
}

/// The tasks of the insert script from `pos` on, where they succeed, leave
/// the nodes at the paths of `pos` characters and more chained down to the
/// key, and the nodes at shorter paths as they were.
proof fn lemma_insert_chains(s: StoreModel, namespace: Seq<char>, key: Seq<char>, pos: int)
    requires
        0 <= pos <= key.len() + 1,
        script_effect(s, insert_tasks(namespace, key), pos) is Ok,
        pos == key.len() + 1 ==> node_at(s, namespace, key) is Some && node_at(
            s,
            namespace,
            key,
        )->0.key == Some(key),
    ensures
        chained(script_effect(s, insert_tasks(namespace, key), pos)->Ok_0, namespace, key, pos),
        forall|j: int|
            0 <= j < pos && j <= key.len() ==> same_at(
                script_effect(s, insert_tasks(namespace, key), pos)->Ok_0,
                s,
                node_text(namespace, #[trigger] key.take(j)),
            ),
    decreases key.len() + 1 - pos,
{
    let tasks = insert_tasks(namespace, key);
    assert(key.take(key.len() as int) =~= key);
    if pos <= key.len() {
        let task = tasks[pos];
        let next = task_effect(s, task)->Ok_0;
        let own = node_text(namespace, key.take(pos));
        if pos < key.len() {
            let held = crate::script::node_in(read(s, own, Kind::Node));
            let node = match held {
                Ok(Some(n)) => n,
                _ => NodeView::blank(),
            };
            let after = node.linked(key[pos]);
            if !node.children.contains(key[pos]) {
                assert(after.children[node.children.len() as int] == key[pos]);
            }
        }
        lemma_insert_chains(next, namespace, key, pos + 1);
        let end = script_effect(s, tasks, pos)->Ok_0;
        assert forall|j: int| 0 <= j < pos implies same_at(
            end,
            s,
            node_text(namespace, #[trigger] key.take(j)),
        ) by {
            lemma_nodes_apart(namespace, key.take(j), key.take(pos));
            lemma_task_frame(s, task, node_text(namespace, key.take(j)));
        }
        assert(chained(end, namespace, key, pos)) by {
            assert forall|j: int| pos <= j < key.len() implies (#[trigger] node_at(
                end,
                namespace,
                key.take(j),
            )) is Some && node_at(end, namespace, key.take(j))->0.children.contains(key[j]) by {
                if j == pos {
                    assert(same_at(end, next, node_text(namespace, key.take(pos))));
                }
            }
            if pos == key.len() {
                assert(same_at(end, next, node_text(namespace, key.take(pos))));
            }
        }
    }
}

/// Where storing a key succeeds, the store as the insert left it holds the
/// nodes from the root down to the key, each listing the next character,
/// and the node at the key marked with it.
pub proof fn lemma_insert_links(s: StoreModel, namespace: Seq<char>, key: Seq<char>)
    requires
        script_effect(s, insert_tasks(namespace, key), 0) is Ok,
    ensures
        chained(script_effect(s, insert_tasks(namespace, key), 0)->Ok_0, namespace, key, 0),
{
    lemma_insert_chains(s, namespace, key, 0);
}

/// A lookup of a key finds it where the nodes at its paths are chained down
/// to it from the first character on.
proof fn lemma_lookup_chained(s: StoreModel, namespace: Seq<char>, key: Seq<char>, stage: int)
    requires
        0 <= stage <= key.len(),
        chained(s, namespace, key, 1),
    ensures
        lookup_from(s, namespace, key, stage) == Ok::<Option<Seq<char>>, ErrorView>(Some(key)),
    decreases key.len() - stage,
{
    assert(key.take(key.len() as int) =~= key);
    if stage < key.len() {
        let path = key.take(stage + 1);
        assert(node_at(s, namespace, path) is Some);
        if stage < key.len() - 1 {
            assert(node_at(s, namespace, key.take(stage + 1))->0.children.contains(key[stage + 1]));
        }
        lemma_lookup_chained(s, namespace, key, stage + 1);
    }
}

/// Insert-then-get: where storing a key succeeds, a lookup of it in the
/// store as the insert left it finds the key.
pub proof fn lemma_get_after_insert(s: StoreModel, namespace: Seq<char>, key: Seq<char>)
    requires
        key.len() > 0,
        script_effect(s, insert_tasks(namespace, key), 0) is Ok,
    ensures
        lookup(script_effect(s, insert_tasks(namespace, key), 0)->Ok_0, namespace, key) == Ok::<
            Option<Seq<char>>,
            ErrorView,
        >(Some(key)),
{
    lemma_insert_chains(s, namespace, key, 0);
    lemma_lookup_chained(script_effect(s, insert_tasks(namespace, key), 0)->Ok_0, namespace, key, 0);
}

/// No key ends at the node at `path`, or the store holds no node there.
pub open spec fn unmarked(s: StoreModel, namespace: Seq<char>, path: Seq<char>) -> bool {
    readable(s, namespace, path) && (node_at(s, namespace, path) is Some ==> node_at(
        s,
        namespace,
        path,
    )->0.key is None)
}

/// The tasks of the remove script from `pos` on, where they succeed, leave
/// the nodes at the paths of more than `pos` characters readable and the
/// node at the key unmarked, and the nodes at shorter paths as they were.
proof fn lemma_remove_unmarks(s: StoreModel, namespace: Seq<char>, key: Seq<char>, pos: int)
    requires
        0 <= pos <= key.len(),
        script_effect(s, remove_tasks(namespace, key), pos) is Ok,
        pos == key.len() ==> unmarked(s, namespace, key),
    ensures
        forall|j: int|
            pos < j <= key.len() ==> readable(
                script_effect(s, remove_tasks(namespace, key), pos)->Ok_0,
                namespace,
                #[trigger] key.take(j),
            ),
        unmarked(script_effect(s, remove_tasks(namespace, key), pos)->Ok_0, namespace, key),
        forall|j: int|
            0 <= j <= pos ==> same_at(
                script_effect(s, remove_tasks(namespace, key), pos)->Ok_0,
                s,
                node_text(namespace, #[trigger] key.take(j)),
            ),
    decreases key.len() - pos,
{
    let tasks = remove_tasks(namespace, key);
    assert(key.take(key.len() as int) =~= key);
    if pos < key.len() {
        let task = tasks[pos];
        let next = task_effect(s, task)->Ok_0;
        let own = node_text(namespace, key.take(pos + 1));
        assert(task_key(task) == own);
        assert(readable(next, namespace, key.take(pos + 1)));
        if pos == key.len() - 1 {
            assert(unmarked(next, namespace, key));
        }
        lemma_remove_unmarks(next, namespace, key, pos + 1);
        let end = script_effect(s, tasks, pos)->Ok_0;
        assert forall|j: int| 0 <= j <= pos implies same_at(
            end,
            s,
            node_text(namespace, #[trigger] key.take(j)),
        ) by {
            lemma_nodes_apart(namespace, key.take(j), key.take(pos + 1));
            lemma_task_frame(s, task, node_text(namespace, key.take(j)));
        }
        assert forall|j: int| pos < j <= key.len() implies readable(
            end,
            namespace,
            #[trigger] key.take(j),
        ) by {
            if j == pos + 1 {
                assert(same_at(end, next, node_text(namespace, key.take(pos + 1))));
            }
        }
    }
}

/// A lookup of a key finds nothing where the nodes at its paths are
/// readable and the node at the key is unmarked.
proof fn lemma_lookup_unmarked(s: StoreModel, namespace: Seq<char>, key: Seq<char>, stage: int)
    requires
        0 <= stage <= key.len(),
        key.len() > 0,
        forall|j: int| 0 < j <= key.len() ==> readable(s, namespace, #[trigger] key.take(j)),
        unmarked(s, namespace, key),
    ensures
        lookup_from(s, namespace, key, stage) == Ok::<Option<Seq<char>>, ErrorView>(None),
    decreases key.len() - stage,
{
    if stage < key.len() {
        lemma_lookup_unmarked(s, namespace, key, stage + 1);
    }
}

/// Remove-then-get: where removing a key succeeds, a lookup of it in the
/// store as the removal left it finds nothing.
pub proof fn lemma_get_after_remove(s: StoreModel, namespace: Seq<char>, key: Seq<char>)
    requires
        key.len() > 0,
        script_effect(s, remove_tasks(namespace, key), 0) is Ok,
    ensures
        lookup(script_effect(s, remove_tasks(namespace, key), 0)->Ok_0, namespace, key) == Ok::<
            Option<Seq<char>>,
            ErrorView,
        >(None),
{
    lemma_remove_unmarks(s, namespace, key, 0);
    lemma_lookup_unmarked(
        script_effect(s, remove_tasks(namespace, key), 0)->Ok_0,
        namespace,
        key,
        0,
    );
}

/// The marks of a trie are faithful when every key that ends at a node is
/// the path of that node.
pub open spec fn faithful(s: StoreModel, namespace: Seq<char>) -> bool {
    forall|path: Seq<char>|
        (#[trigger] node_at(s, namespace, path)) is Some && node_at(s, namespace, path)->0.key
            is Some ==> node_at(s, namespace, path)->0.key == Some(path)
}

/// Whether `task` is a task on the node at `path` that marks it with no key
/// but its path.
pub open spec fn node_task(namespace: Seq<char>, path: Seq<char>, task: TaskView) -> bool {
    match task {
        TaskView::Link { key, .. } => key == node_text(namespace, path),
        TaskView::Mark { key, terminal } => key == node_text(namespace, path) && terminal == path,
        TaskView::Unmark { key } => key == node_text(namespace, path),
        TaskView::Prune { key, .. } => key == node_text(namespace, path),
        _ => false,
    }
}

/// A task on a node leaves the marks of its trie faithful.
proof fn lemma_task_keeps_faithful(
    s: StoreModel,
    namespace: Seq<char>,
    path: Seq<char>,
    task: TaskView,
)
    requires
        faithful(s, namespace),
        node_task(namespace, path, task),
        task_effect(s, task) is Ok,
    ensures
        faithful(task_effect(s, task)->Ok_0, namespace),
{
    let end = task_effect(s, task)->Ok_0;
    assert forall|other: Seq<char>|
        (#[trigger] node_at(end, namespace, other)) is Some && node_at(end, namespace, other)->0.key
            is Some implies node_at(end, namespace, other)->0.key == Some(other) by {
        if other != path {
            lemma_nodes_apart(namespace, other, path);
            lemma_task_frame(s, task, node_text(namespace, other));
            assert(node_at(s, namespace, other) == node_at(end, namespace, other));
        } else {
            assert(node_at(s, namespace, path) is Some ==> (node_at(s, namespace, path)->0.key
                is Some ==> node_at(s, namespace, path)->0.key == Some(path)));
        }
    }
}

/// The insert script leaves the marks of its trie faithful.
pub proof fn lemma_insert_keeps_faithful(
    s: StoreModel,
    namespace: Seq<char>,
    key: Seq<char>,
    pos: int,
)
    requires
        0 <= pos <= key.len() + 1,
        faithful(s, namespace),
        script_effect(s, insert_tasks(namespace, key), pos) is Ok,
    ensures
        faithful(script_effect(s, insert_tasks(namespace, key), pos)->Ok_0, namespace),
    decreases key.len() + 1 - pos,
{
    if pos <= key.len() {
        let task = insert_tasks(namespace, key)[pos];
        assert(key.take(key.len() as int) =~= key);
        lemma_task_keeps_faithful(s, namespace, key.take(pos), task);
        lemma_insert_keeps_faithful(task_effect(s, task)->Ok_0, namespace, key, pos + 1);
    }
}

/// The remove script leaves the marks of its trie faithful.
pub proof fn lemma_remove_keeps_faithful(
    s: StoreModel,
    namespace: Seq<char>,
    key: Seq<char>,
    pos: int,
)
    requires
        0 <= pos <= key.len(),
        faithful(s, namespace),
        script_effect(s, remove_tasks(namespace, key), pos) is Ok,
    ensures
        faithful(script_effect(s, remove_tasks(namespace, key), pos)->Ok_0, namespace),
    decreases key.len() - pos,
{
    if pos < key.len() {
        let task = remove_tasks(namespace, key)[pos];
        assert(key.take(key.len() as int) =~= key);
        lemma_task_keeps_faithful(s, namespace, key.take(pos + 1), task);
        lemma_remove_keeps_faithful(task_effect(s, task)->Ok_0, namespace, key, pos + 1);
    }
}

/// Where removing a key succeeds, the store as the removal left it holds no
/// node at the key's path with a mark.
pub proof fn lemma_remove_clears(s: StoreModel, namespace: Seq<char>, key: Seq<char>)
    requires
        key.len() > 0,
        script_effect(s, remove_tasks(namespace, key), 0) is Ok,
    ensures
        unmarked(script_effect(s, remove_tasks(namespace, key), 0)->Ok_0, namespace, key),
{
    lemma_remove_unmarks(s, namespace, key, 0);
}

/// The trie in `after` extends the one in `before` by the key `entry`:
/// every node is still there, with the children and the mark that it had,
/// and a node that is marked now was marked so before or is marked with
/// `entry`.
pub open spec fn extends(
    before: StoreModel,
    after: StoreModel,
    namespace: Seq<char>,
    entry: Seq<char>,
) -> bool {
    forall|path: Seq<char>|
        #![trigger node_at(before, namespace, path)]
        #![trigger node_at(after, namespace, path)]
        {
            let old = node_at(before, namespace, path);
            let new = node_at(after, namespace, path);
            &&& old is Some ==> new is Some && (old->0.key is Some ==> new->0.key == old->0.key)
                && forall|c: char| old->0.children.contains(c) ==> new->0.children.contains(c)
            &&& new is Some && new->0.key is Some ==> new->0.key == Some(entry) || (old is Some
                && old->0.key == new->0.key)
        }
}

/// A node with one more child registered lists every child that it listed.
proof fn lemma_linked_keeps(node: NodeView, c: char, d: char)
    requires
        node.children.contains(d) || d == c,
    ensures
        node.linked(c).children.contains(d),
{
    if !node.children.contains(c) {
        let after = node.linked(c);
        if d == c {
            assert(after.children[node.children.len() as int] == c);
        } else {
            let j = choose|j: int| 0 <= j < node.children.len() && node.children[j] == d;
            assert(after.children[j] == d);
        }
    }
}

/// The tasks of the insert script from `pos` on, where they succeed and
/// the marks of the trie are faithful, extend the trie by the key.
proof fn lemma_insert_extends(s: StoreModel, namespace: Seq<char>, key: Seq<char>, pos: int)
    requires
        0 <= pos <= key.len() + 1,
        faithful(s, namespace),
        script_effect(s, insert_tasks(namespace, key), pos) is Ok,
    ensures
        extends(s, script_effect(s, insert_tasks(namespace, key), pos)->Ok_0, namespace, key),
    decreases key.len() + 1 - pos,
{
    let tasks = insert_tasks(namespace, key);
    if pos <= key.len() {
        let task = tasks[pos];
        assert(key.take(key.len() as int) =~= key);
        let at = key.take(pos);
        let next = task_effect(s, task)->Ok_0;
        lemma_task_keeps_faithful(s, namespace, at, task);
        lemma_insert_extends(next, namespace, key, pos + 1);
        let end = script_effect(s, tasks, pos)->Ok_0;
        assert(extends(s, next, namespace, key)) by {
            assert forall|path: Seq<char>|
                #![trigger node_at(s, namespace, path)]
                #![trigger node_at(next, namespace, path)]
                {
                    let old = node_at(s, namespace, path);
                    let new = node_at(next, namespace, path);
                    &&& old is Some ==> new is Some && (old->0.key is Some ==> new->0.key
                        == old->0.key) && forall|c: char|
                        old->0.children.contains(c) ==> new->0.children.contains(c)
                    &&& new is Some && new->0.key is Some ==> new->0.key == Some(key) || (old
                        is Some && old->0.key == new->0.key)
                } by {
                if path != at {
                    lemma_nodes_apart(namespace, path, at);
                    lemma_task_frame(s, task, node_text(namespace, path));
                } else if pos < key.len() {
                    let old = node_at(s, namespace, at);
                    if old is Some {
                        assert forall|c: char| old->0.children.contains(c) implies old->0.linked(
                            key[pos],
                        ).children.contains(c) by {
                            lemma_linked_keeps(old->0, key[pos], c);
                        }
                    }
                }
            }
        }
        assert forall|path: Seq<char>|
            #![trigger node_at(s, namespace, path)]
            #![trigger node_at(end, namespace, path)]
            {
                let old = node_at(s, namespace, path);
                let new = node_at(end, namespace, path);
                &&& old is Some ==> new is Some && (old->0.key is Some ==> new->0.key
                    == old->0.key) && forall|c: char|
                    old->0.children.contains(c) ==> new->0.children.contains(c)
                &&& new is Some && new->0.key is Some ==> new->0.key == Some(key) || (old is Some
                    && old->0.key == new->0.key)
            } by {
            assert(node_at(next, namespace, path) is Some || node_at(next, namespace, path) is None);
        }
    } else {
        assert(script_effect(s, tasks, pos) == Ok::<StoreModel, ErrorView>(s));
    }
}

/// Where the marks of the trie are faithful and storing a key succeeds, the
/// store as the insert left it holds the trie extended by the key.
pub proof fn lemma_insert_grows(s: StoreModel, namespace: Seq<char>, key: Seq<char>)
    requires
        faithful(s, namespace),
        script_effect(s, insert_tasks(namespace, key), 0) is Ok,
    ensures
        extends(s, script_effect(s, insert_tasks(namespace, key), 0)->Ok_0, namespace, key),
{
    lemma_insert_extends(s, namespace, key, 0);
}

} // verus!
