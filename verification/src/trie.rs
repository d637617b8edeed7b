//! A prefix trie whose nodes are rows of the backing store.
//!
//! The node at path `p` is stored under `{namespace}:trie:node:{p}`; the root
//! has the empty path. A key is stored by registering each of its characters
//! as a child of the node before it and marking the node at its full path.

use vstd::prelude::*;
use vstd::string::{StrSliceExecFns, StringExecFns};
use crate::cursor::{CursorView, Progress, WriteCursor};
use crate::keys::{node_name, node_text};
use crate::script::{task_views, Task, TaskView};
use crate::store::StoreError;

verus! {

/// A prefix trie in the store, told apart from others by its namespace.
#[derive(Clone, Debug)]
pub struct PrefixTrie {
    pub prefix: String,
}

impl View for PrefixTrie {
    type V = Seq<char>;

    /// The namespace of the trie.
    open spec fn view(&self) -> Seq<char> {
        self.prefix@
    }
}

/// The script that stores `key`: one task for the root and one for each
/// character. The node before each character registers it as a child; the
/// node at the full path is marked with the key.
pub open spec fn insert_tasks(namespace: Seq<char>, key: Seq<char>) -> Seq<TaskView> {
    Seq::new((key.len() + 1) as nat, |j: int| insert_task(namespace, key, j))
}

/// The task of the insert script at position `j`.
pub open spec fn insert_task(namespace: Seq<char>, key: Seq<char>, j: int) -> TaskView {
    if j < key.len() {
        TaskView::Link { key: node_text(namespace, key.take(j)), child: key[j] }
    } else {
        TaskView::Mark { key: node_text(namespace, key), terminal: key }
    }
}

/// The script that removes `key`: one task for each character, front to
/// back. The node at the full path loses its mark; each node before it looks
/// one level ahead and drops a child that is dead.
pub open spec fn remove_tasks(namespace: Seq<char>, key: Seq<char>) -> Seq<TaskView> {
    Seq::new(key.len(), |i: int| remove_task(namespace, key, i))
}

/// The task of the remove script at position `i`.
pub open spec fn remove_task(namespace: Seq<char>, key: Seq<char>, i: int) -> TaskView {
    if i == key.len() - 1 {
        TaskView::Unmark { key: node_text(namespace, key) }
    } else {
        TaskView::Prune {
            key: node_text(namespace, key.take(i + 1)),
            below: node_text(namespace, key.take(i + 2)),
            child: key[i + 1],
        }
    }
}

impl PrefixTrie {
    /// A trie with the given namespace.
    pub fn new(prefix: &str) -> (trie: PrefixTrie)
        ensures
            trie@ == prefix@,
    {
        PrefixTrie { prefix: String::from_str(prefix) }
    }

    /// The store key of the node at `path`, as text.
    pub fn node_name(&self, path: &str) -> (text: String)
        ensures
            text@ == node_text(self@, path@),
    {
        node_name(self.prefix.as_str(), path)
    }

    /// The store key of the node at `path`, as the bytes of its text.
    pub fn node_key(&self, path: &str) -> (bytes: Vec<u8>)
        ensures
            bytes@ == vstd::utf8::encode_utf8(node_text(self@, path@)),
    {
        let text = self.node_name(path);
        text.as_str().as_bytes_vec()
    }

    /// The script that stores a key that is not empty.
    pub(crate) fn link_script(&self, key: &str) -> (tasks: Vec<Task>)
        requires
            key@.len() > 0,
        ensures
            task_views(tasks@) == insert_tasks(self@, key@),
    {
        let n = key.unicode_len();
        let mut tasks: Vec<Task> = Vec::new();
        let mut j: usize = 0;
        while j < n
            invariant
                j <= n,
                n == key@.len(),
                tasks.len() == j,
                forall|k: int| 0 <= k < j ==> (#[trigger] tasks@[k])@ == insert_task(self@, key@, k),
            decreases n - j,
        {
            let path = key.substring_char(0, j);
            assert(key@.subrange(0, j as int) == key@.take(j as int));
            tasks.push(Task::Link { key: self.node_name(path), child: key.get_char(j) });
            j += 1;
        }
        tasks.push(Task::Mark { key: self.node_name(key), terminal: String::from_str(key) });
        assert(task_views(tasks@) =~= insert_tasks(self@, key@));
        tasks
    }

    /// The script that stores `key`, or `InvalidInput` for the empty key.
    pub fn insert_script(&self, key: &str) -> (out: Result<Vec<Task>, StoreError>)
        ensures
            key@.len() == 0 <==> out is Err,
            out is Err ==> out == Err::<Vec<Task>, StoreError>(StoreError::InvalidInput),
            out is Ok ==> task_views(out->Ok_0@) == insert_tasks(self@, key@),
    {
        if key.unicode_len() == 0 {
            Err(StoreError::InvalidInput)
        } else {
            Ok(self.link_script(key))
        }
    }

    /// The script that removes `key`. The script of the empty key is empty.
    pub fn remove_script(&self, key: &str) -> (tasks: Vec<Task>)
        ensures
            task_views(tasks@) == remove_tasks(self@, key@),
    {
        let n = key.unicode_len();
        let mut tasks: Vec<Task> = Vec::new();
        let mut i: usize = 0;
        while i < n
            invariant
                i <= n,
                n == key@.len(),
                tasks.len() == i,
                forall|k: int| 0 <= k < i ==> (#[trigger] tasks@[k])@ == remove_task(self@, key@, k),
            decreases n - i,
        {
            if i == n - 1 {
                tasks.push(Task::Unmark { key: self.node_name(key) });
            } else {
                let path = key.substring_char(0, i + 1);
                let below = key.substring_char(0, i + 2);
                assert(key@.subrange(0, i + 1) == key@.take(i + 1));
                assert(key@.subrange(0, i + 2) == key@.take(i + 2));
                tasks.push(
                    Task::Prune {
                        key: self.node_name(path),
                        below: self.node_name(below),
                        child: key.get_char(i + 1),
                    },
                );
            }
            i += 1;
        }
        assert(task_views(tasks@) =~= remove_tasks(self@, key@));
        tasks
    }

    /// Starts storing `key`: a cursor over the insert script and its first
    /// request. The empty key is refused with `InvalidInput`.
    pub fn insert(&self, key: &str) -> (out: Result<(WriteCursor, Progress), StoreError>)
        ensures
            key@.len() == 0 <==> out is Err,
            out is Err ==> out == Err::<(WriteCursor, Progress), StoreError>(
                StoreError::InvalidInput,
            ),
            out is Ok ==> (out->Ok_0.0@, out->Ok_0.1@) == CursorView::fresh(
                insert_tasks(self@, key@),
            ).launch(),
    {
        match self.insert_script(key) {
            Ok(tasks) => Ok(WriteCursor::begin(tasks)),
            Err(_) => Err(StoreError::InvalidInput),
        }
    }

    /// Starts removing `key`: a cursor over the remove script and its first
    /// request, or `Finished` at once for the empty key.
    pub fn remove(&self, key: &str) -> (out: (WriteCursor, Progress))
        ensures
            (out.0@, out.1@) == CursorView::fresh(remove_tasks(self@, key@)).launch(),
    {
        WriteCursor::begin(self.remove_script(key))
    }
}

} // verus!
