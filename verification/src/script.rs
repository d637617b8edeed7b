//! Mutating operations as scripts: an ordered list of small tasks, each of
//! which reads at most two rows and then writes or deletes one. A
//! [`WriteCursor`] walks a script one round trip at a time.

use vstd::prelude::*;

use crate::index::{enlist, enlisted, retract, retracted};
use crate::migration::{cbor_names, check_mutation, decode_names, may_mutate};
use crate::node::{text_of, NodeView, TrieNode};
use crate::store::{
    texts, ErrorView, Kind, Payload, PayloadView, Reply, ReplyView, Request, RequestView,
    StoreError,
};

verus! {

/// One step of a mutating operation.
#[derive(Debug, Clone, PartialEq, Eq)]
pub enum Task {
    /// Write `value` under `key`.
    Put { key: String, value: Payload },
    /// Delete the row under `key`.
    Delete { key: String },
    /// Register `child` in the trie node under `key`, creating the node
    /// where there is none.
    Link { key: String, child: char },
    /// Make `terminal` the key that ends at the trie node under `key`,
    /// creating the node where there is none.
    Mark { key: String, terminal: String },
    /// Clear the key that ends at the trie node under `key`; delete the node
    /// if it has no children.
    Unmark { key: String },
    /// Look one level below the trie node under `key`: drop `child` from it
    /// if the node under `below` is dead, then delete the node under `key`
    /// if it is dead itself.
    Prune { key: String, below: String, child: char },
    /// Add `member` to the key set of the multi index entry under `key`.
    Enlist { key: String, member: String },
    /// Take `member` out of the key set of the multi index entry under
    /// `key`; delete the entry if the set is then empty.
    Retract { key: String, member: String },
    /// Read the ledger under `key` and refuse unless `model` may be written.
    Guard { key: String, model: String, predecessor: Option<String> },
}

/// The mathematical value of a [`Task`].
pub enum TaskView {
    Put { key: Seq<char>, value: PayloadView },
    Delete { key: Seq<char> },
    Link { key: Seq<char>, child: char },
    Mark { key: Seq<char>, terminal: Seq<char> },
    Unmark { key: Seq<char> },
    Prune { key: Seq<char>, below: Seq<char>, child: char },
    Enlist { key: Seq<char>, member: Seq<char> },
    Retract { key: Seq<char>, member: Seq<char> },
    Guard { key: Seq<char>, model: Seq<char>, predecessor: Option<Seq<char>> },
}

impl View for Task {
    type V = TaskView;

    open spec fn view(&self) -> TaskView {
        match *self {
            Task::Put { key, value } => TaskView::Put { key: key@, value: value@ },
            Task::Delete { key } => TaskView::Delete { key: key@ },
            Task::Link { key, child } => TaskView::Link { key: key@, child },
            Task::Mark { key, terminal } => TaskView::Mark { key: key@, terminal: terminal@ },
            Task::Unmark { key } => TaskView::Unmark { key: key@ },
            Task::Prune { key, below, child } => TaskView::Prune {
                key: key@,
                below: below@,
                child,
            },
            Task::Enlist { key, member } => TaskView::Enlist { key: key@, member: member@ },
            Task::Retract { key, member } => TaskView::Retract { key: key@, member: member@ },
            Task::Guard { key, model, predecessor } => TaskView::Guard {
                key: key@,
                model: model@,
                predecessor: text_of(predecessor),
            },
        }
    }
}

/// The views of a list of tasks, in order.
pub open spec fn task_views(tasks: Seq<Task>) -> Seq<TaskView> {
    Seq::new(tasks.len(), |i: int| tasks[i]@)
}

/// The trie node that a reply to a read holds: `None` where the row is
/// missing. A payload of another shape is a decoding error, an answer that
/// fits no read a store failure.
pub open spec fn node_in(reply: ReplyView) -> Result<Option<NodeView>, ErrorView> {
    match reply {
        ReplyView::Found(PayloadView::Node(n)) => Ok(Some(n)),
        ReplyView::Missing => Ok(None),
        ReplyView::Found(_) => Err(ErrorView::DecodeError),
        ReplyView::Undecodable => Err(ErrorView::DecodeError),
        _ => Err(ErrorView::StoreConflict),
    }
}

/// The key set that a reply to a read holds: `None` where the row is missing.
pub open spec fn keys_in(reply: ReplyView) -> Result<Option<Seq<Seq<char>>>, ErrorView> {
    match reply {
        ReplyView::Found(PayloadView::Keys(ks)) => Ok(Some(ks)),
        ReplyView::Missing => Ok(None),
        ReplyView::Found(_) => Err(ErrorView::DecodeError),
        ReplyView::Undecodable => Err(ErrorView::DecodeError),
        _ => Err(ErrorView::StoreConflict),
    }
}

/// The ledger that a reply to a read holds: empty where the row is missing.
pub open spec fn ledger_in(reply: ReplyView) -> Result<Seq<Seq<char>>, ErrorView> {
    match reply {
        ReplyView::Found(PayloadView::Bytes(b)) => match cbor_names(b) {
            Some(names) => Ok(names),
            None => Err(ErrorView::DecodeError),
        },
        ReplyView::Missing => Ok(Seq::empty()),
        ReplyView::Found(_) => Err(ErrorView::DecodeError),
        ReplyView::Undecodable => Err(ErrorView::DecodeError),
        _ => Err(ErrorView::StoreConflict),
    }
}

/// The trie node in a reply to a read.
pub fn take_node(reply: Reply) -> (out: Result<Option<TrieNode>, StoreError>)
    ensures
        match out {
            Ok(Some(n)) => node_in(reply@) == Ok::<Option<NodeView>, ErrorView>(Some(n@)),
            Ok(None) => node_in(reply@) == Ok::<Option<NodeView>, ErrorView>(None),
            Err(e) => node_in(reply@) == Err::<Option<NodeView>, ErrorView>(e@),
        },
{
    match reply {
        Reply::Found(Payload::Node(n)) => Ok(Some(n)),
        Reply::Missing => Ok(None),
        Reply::Found(_) => Err(StoreError::DecodeError),
        Reply::Undecodable => Err(StoreError::DecodeError),
        _ => Err(StoreError::StoreConflict),
    }
}

/// The key set in a reply to a read.
pub fn take_keys(reply: Reply) -> (out: Result<Option<Vec<String>>, StoreError>)
    ensures
        match out {
            Ok(Some(ks)) => keys_in(reply@) == Ok::<Option<Seq<Seq<char>>>, ErrorView>(
                Some(texts(ks@)),
            ),
            Ok(None) => keys_in(reply@) == Ok::<Option<Seq<Seq<char>>>, ErrorView>(None),
            Err(e) => keys_in(reply@) == Err::<Option<Seq<Seq<char>>>, ErrorView>(e@),
        },
{
    match reply {
        Reply::Found(Payload::Keys(ks)) => Ok(Some(ks)),
        Reply::Missing => Ok(None),
        Reply::Found(_) => Err(StoreError::DecodeError),
        Reply::Undecodable => Err(StoreError::DecodeError),
        _ => Err(StoreError::StoreConflict),
    }
}

/// The ledger in a reply to a read of a ledger row.
pub fn take_ledger(reply: Reply) -> (out: Result<Vec<String>, StoreError>)
    ensures
        match out {
            Ok(names) => ledger_in(reply@) == Ok::<Seq<Seq<char>>, ErrorView>(texts(names@)),
            Err(e) => ledger_in(reply@) == Err::<Seq<Seq<char>>, ErrorView>(e@),
        },
{
    match reply {
        Reply::Found(Payload::Bytes(b)) => match decode_names(&b) {
            Some(names) => Ok(names),
            None => Err(StoreError::DecodeError),
        },
        Reply::Missing => {
            let names: Vec<String> = Vec::new();
            assert(texts(names@) =~= Seq::<Seq<char>>::empty());
            Ok(names)
        },
        Reply::Found(_) => Err(StoreError::DecodeError),
        Reply::Undecodable => Err(StoreError::DecodeError),
        _ => Err(StoreError::StoreConflict),
    }
}

/// What a cursor is waiting for.
#[derive(Debug, Clone, Copy, PartialEq, Eq, Structural)]
pub enum Waiting {
    /// Nothing: the script is over.
    Idle,
    /// The row that the current task reads first.
    Read,
    /// The row one level below, for a task that prunes.
    Child,
    /// The store's word that a write or delete was taken.
    Ack,
}

/// What a task does once the store has answered.
pub enum Outcome {
    /// Another round trip is needed.
    Ask { request: Request, held: Option<TrieNode>, waiting: Waiting },
    /// The task is done.
    Next,
    /// The task failed, and the script with it.
    Fail(StoreError),
}

/// The mathematical value of an [`Outcome`].
pub enum OutcomeView {
    Ask { request: RequestView, held: Option<NodeView>, waiting: Waiting },
    Next,
    Fail(ErrorView),
}

/// The view of an optional trie node.
pub open spec fn node_of(node: Option<TrieNode>) -> Option<NodeView> {
    match node {
        Some(n) => Some(n@),
        None => None,
    }
}

impl View for Outcome {
    type V = OutcomeView;

    open spec fn view(&self) -> OutcomeView {
        match *self {
            Outcome::Ask { request, held, waiting } => OutcomeView::Ask {
                request: request@,
                held: node_of(held),
                waiting,
            },
            Outcome::Next => OutcomeView::Next,
            Outcome::Fail(e) => OutcomeView::Fail(e@),
        }
    }
}

/// The round trip that opens a task, and what the cursor then waits for.
pub open spec fn opening(task: TaskView) -> (RequestView, Waiting) {
    match task {
        TaskView::Put { key, value } => (RequestView::Put { key, value }, Waiting::Ack),
        TaskView::Delete { key } => (RequestView::Delete { key }, Waiting::Ack),
        TaskView::Link { key, .. } => (RequestView::Get { key, kind: Kind::Node }, Waiting::Read),
        TaskView::Mark { key, .. } => (RequestView::Get { key, kind: Kind::Node }, Waiting::Read),
        TaskView::Unmark { key } => (RequestView::Get { key, kind: Kind::Node }, Waiting::Read),
        TaskView::Prune { key, .. } => (RequestView::Get { key, kind: Kind::Node }, Waiting::Read),
        TaskView::Enlist { key, .. } => (RequestView::Get { key, kind: Kind::Keys }, Waiting::Read),
        TaskView::Retract { key, .. } => (
            RequestView::Get { key, kind: Kind::Keys },
            Waiting::Read,
        ),
        TaskView::Guard { key, .. } => (RequestView::Get { key, kind: Kind::Bytes }, Waiting::Read),
    }
}

/// Writing a trie node back: a dead node is deleted, any other is stored.
pub open spec fn settle(key: Seq<char>, node: NodeView) -> OutcomeView {
    if node.dead() {
        OutcomeView::Ask { request: RequestView::Delete { key }, held: None, waiting: Waiting::Ack }
    } else {
        OutcomeView::Ask {
            request: RequestView::Put { key, value: PayloadView::Node(node) },
            held: None,
            waiting: Waiting::Ack,
        }
    }
}

/// Storing `value` under `key` as the last round trip of a task.
pub open spec fn put_last(key: Seq<char>, value: PayloadView) -> OutcomeView {
    OutcomeView::Ask { request: RequestView::Put { key, value }, held: None, waiting: Waiting::Ack }
}

/// What a task does with the row it read first.
pub open spec fn after_read(task: TaskView, reply: ReplyView) -> OutcomeView {
    match task {
        TaskView::Link { key, child } => match node_in(reply) {
            Ok(Some(n)) => put_last(key, PayloadView::Node(n.linked(child))),
            Ok(None) => put_last(key, PayloadView::Node(NodeView::blank().linked(child))),
            Err(e) => OutcomeView::Fail(e),
        },
        TaskView::Mark { key, terminal } => match node_in(reply) {
            Ok(Some(n)) => put_last(key, PayloadView::Node(n.marked(terminal))),
            Ok(None) => put_last(key, PayloadView::Node(NodeView::blank().marked(terminal))),
            Err(e) => OutcomeView::Fail(e),
        },
        TaskView::Unmark { key } => match node_in(reply) {
            Ok(Some(n)) => settle(key, n.unmarked()),
            Ok(None) => OutcomeView::Next,
            Err(e) => OutcomeView::Fail(e),
        },
        TaskView::Prune { key, below, child } => match node_in(reply) {
            Ok(Some(n)) => OutcomeView::Ask {
                request: RequestView::Get { key: below, kind: Kind::Node },
                held: Some(n),
                waiting: Waiting::Child,
            },
            Ok(None) => OutcomeView::Next,
            Err(e) => OutcomeView::Fail(e),
        },
        TaskView::Enlist { key, member } => match keys_in(reply) {
            Ok(Some(ks)) => put_last(key, PayloadView::Keys(enlisted(ks, member))),
            Ok(None) => put_last(key, PayloadView::Keys(enlisted(Seq::empty(), member))),
            Err(e) => OutcomeView::Fail(e),
        },
        TaskView::Retract { key, member } => match keys_in(reply) {
            Ok(Some(ks)) => if retracted(ks, member).len() == 0 {
                OutcomeView::Ask {
                    request: RequestView::Delete { key },
                    held: None,
                    waiting: Waiting::Ack,
                }
            } else {
                put_last(key, PayloadView::Keys(retracted(ks, member)))
            },
            Ok(None) => OutcomeView::Next,
            Err(e) => OutcomeView::Fail(e),
        },
        TaskView::Guard { key, model, predecessor } => match ledger_in(reply) {
            Ok(names) => if may_mutate(names, model, predecessor) {
                OutcomeView::Next
            } else {
                OutcomeView::Fail(ErrorView::MigrationOrderError)
            },
            Err(e) => OutcomeView::Fail(e),
        },
        _ => OutcomeView::Fail(ErrorView::StoreConflict),
    }
}

/// What a pruning task does with the row one level below, `held` being the
/// node it read first.
pub open spec fn after_child(task: TaskView, held: Option<NodeView>, reply: ReplyView)
    -> OutcomeView {
    match (task, held) {
        (TaskView::Prune { key, below, child }, Some(n)) => match node_in(reply) {
            Ok(Some(b)) => settle(
                key,
                if b.dead() {
                    n.unlinked(child)
                } else {
                    n
                },
            ),
            Ok(None) => settle(key, n),
            Err(e) => OutcomeView::Fail(e),
        },
        _ => OutcomeView::Fail(ErrorView::StoreConflict),
    }
}

/// What a task does once the store has answered the round trip it was
/// waiting for.
pub open spec fn decide_spec(
    task: TaskView,
    waiting: Waiting,
    held: Option<NodeView>,
    reply: ReplyView,
) -> OutcomeView {
    match waiting {
        Waiting::Ack => if reply == ReplyView::Done {
            OutcomeView::Next
        } else {
            OutcomeView::Fail(ErrorView::StoreConflict)
        },
        Waiting::Read => after_read(task, reply),
        Waiting::Child => after_child(task, held, reply),
        Waiting::Idle => OutcomeView::Fail(ErrorView::StoreConflict),
    }
}

/// Writes a trie node back: deletes it where it is dead.
fn settle_node(key: &String, node: TrieNode) -> (out: Outcome)
    ensures
        out@ == settle(key@, node@),
{
    if node.is_dead() {
        Outcome::Ask {
            request: Request::Delete { key: key.clone() },
            held: None,
            waiting: Waiting::Ack,
        }
    } else {
        Outcome::Ask {
            request: Request::Put { key: key.clone(), value: Payload::Node(node) },
            held: None,
            waiting: Waiting::Ack,
        }
    }
}

/// Stores `value` under `key` as the last round trip of a task.
fn store_last(key: &String, value: Payload) -> (out: Outcome)
    ensures
        out@ == put_last(key@, value@),
{
    Outcome::Ask {
        request: Request::Put { key: key.clone(), value },
        held: None,
        waiting: Waiting::Ack,
    }
}

/// The round trip that opens `task`, and what the cursor then waits for.
pub fn open_task(task: &Task) -> (out: (Request, Waiting))
    ensures
        (out.0@, out.1) == opening(task@),
{
    match task {
        Task::Put { key, value } => {
            let value = copy_payload(value);
            (Request::Put { key: key.clone(), value }, Waiting::Ack)
        },
        Task::Delete { key } => (Request::Delete { key: key.clone() }, Waiting::Ack),
        Task::Link { key, .. } => (
            Request::Get { key: key.clone(), kind: Kind::Node },
            Waiting::Read,
        ),
        Task::Mark { key, .. } => (
            Request::Get { key: key.clone(), kind: Kind::Node },
            Waiting::Read,
        ),
        Task::Unmark { key } => (Request::Get { key: key.clone(), kind: Kind::Node }, Waiting::Read),
        Task::Prune { key, .. } => (
            Request::Get { key: key.clone(), kind: Kind::Node },
            Waiting::Read,
        ),
        Task::Enlist { key, .. } => (
            Request::Get { key: key.clone(), kind: Kind::Keys },
            Waiting::Read,
        ),
        Task::Retract { key, .. } => (
            Request::Get { key: key.clone(), kind: Kind::Keys },
            Waiting::Read,
        ),
        Task::Guard { key, .. } => (
            Request::Get { key: key.clone(), kind: Kind::Bytes },
            Waiting::Read,
        ),
    }
}

/// A copy of a list of strings.
fn copy_texts(list: &Vec<String>) -> (out: Vec<String>)
    ensures
        texts(out@) == texts(list@),
{
    let mut out: Vec<String> = Vec::new();
    let mut i: usize = 0;
    while i < list.len()
        invariant
            i <= list.len(),
            out.len() == i,
            forall|j: int| 0 <= j < i ==> out@[j]@ == list@[j]@,
        decreases list.len() - i,
    {
        out.push(list[i].clone());
        i += 1;
    }
    assert(texts(out@) =~= texts(list@));
    out
}

/// A copy of a trie node.
fn copy_node(node: &TrieNode) -> (out: TrieNode)
    ensures
        out@ == node@,
{
    let mut children: Vec<char> = Vec::new();
    let mut i: usize = 0;
    while i < node.children.len()
        invariant
            i <= node.children.len(),
            children@ == node.children@.take(i as int),
        decreases node.children.len() - i,
    {
        children.push(node.children[i]);
        assert(node.children@.take(i + 1) =~= node.children@.take(i as int).push(
            node.children@[i as int],
        ));
        i += 1;
    }
    assert(node.children@.take(i as int) =~= node.children@);
    let key = match &node.key {
        Some(k) => Some(k.clone()),
        None => None,
    };
    TrieNode { children, key }
}

/// A copy of a payload.
fn copy_payload(value: &Payload) -> (out: Payload)
    ensures
        out@ == value@,
{
    match value {
        Payload::Bytes(b) => {
            let mut bytes: Vec<u8> = Vec::new();
            let mut i: usize = 0;
            while i < b.len()
                invariant
                    i <= b.len(),
                    bytes@ == b@.take(i as int),
                decreases b.len() - i,
            {
                bytes.push(b[i]);
                assert(b@.take(i + 1) =~= b@.take(i as int).push(b@[i as int]));
                i += 1;
            }
            assert(b@.take(i as int) =~= b@);
            Payload::Bytes(bytes)
        },
        Payload::Node(n) => Payload::Node(copy_node(n)),
        Payload::Key(k) => Payload::Key(k.clone()),
        Payload::Keys(ks) => Payload::Keys(copy_texts(ks)),
    }
}

/// What `task` does with the row it read first.
fn read_done(task: &Task, reply: Reply) -> (out: Outcome)
    ensures
        out@ == after_read(task@, reply@),
{
    match task {
        Task::Link { key, child } => match take_node(reply) {
            Ok(Some(n)) => {
                let mut n = n;
                n.add_child(*child);
                store_last(key, Payload::Node(n))
            },
            Ok(None) => {
                let mut n = TrieNode::empty();
                n.add_child(*child);
                store_last(key, Payload::Node(n))
            },
            Err(e) => Outcome::Fail(e),
        },
        Task::Mark { key, terminal } => match take_node(reply) {
            Ok(Some(n)) => {
                let mut n = n;
                n.key = Some(terminal.clone());
                store_last(key, Payload::Node(n))
            },
            Ok(None) => {
                let mut n = TrieNode::empty();
                n.key = Some(terminal.clone());
                store_last(key, Payload::Node(n))
            },
            Err(e) => Outcome::Fail(e),
        },
        Task::Unmark { key } => match take_node(reply) {
            Ok(Some(n)) => {
                let mut n = n;
                n.key = None;
                settle_node(key, n)
            },
            Ok(None) => Outcome::Next,
            Err(e) => Outcome::Fail(e),
        },
        Task::Prune { key: _, below, child: _ } => match take_node(reply) {
            Ok(Some(n)) => Outcome::Ask {
                request: Request::Get { key: below.clone(), kind: Kind::Node },
                held: Some(n),
                waiting: Waiting::Child,
            },
            Ok(None) => Outcome::Next,
            Err(e) => Outcome::Fail(e),
        },
        Task::Enlist { key, member } => match take_keys(reply) {
            Ok(Some(ks)) => store_last(key, Payload::Keys(enlist(ks, member.as_str()))),
            Ok(None) => {
                let none: Vec<String> = Vec::new();
                assert(texts(none@) =~= Seq::<Seq<char>>::empty());
                store_last(key, Payload::Keys(enlist(none, member.as_str())))
            },
            Err(e) => Outcome::Fail(e),
        },
        Task::Retract { key, member } => match take_keys(reply) {
            Ok(Some(ks)) => {
                let rest = retract(&ks, member.as_str());
                if rest.len() == 0 {
                    Outcome::Ask {
                        request: Request::Delete { key: key.clone() },
                        held: None,
                        waiting: Waiting::Ack,
                    }
                } else {
                    store_last(key, Payload::Keys(rest))
                }
            },
            Ok(None) => Outcome::Next,
            Err(e) => Outcome::Fail(e),
        },
        Task::Guard { key: _, model, predecessor } => match take_ledger(reply) {
            Ok(names) => match check_mutation(&names, model.as_str(), predecessor) {
                Ok(()) => Outcome::Next,
                Err(_) => Outcome::Fail(StoreError::MigrationOrderError),
            },
            Err(e) => Outcome::Fail(e),
        },
        _ => Outcome::Fail(StoreError::StoreConflict),
    }
}

/// What a pruning task does with the row one level below.
fn child_done(task: &Task, held: Option<TrieNode>, reply: Reply) -> (out: Outcome)
    ensures
        out@ == after_child(task@, node_of(held), reply@),
{
    match task {
        Task::Prune { key, below: _, child } => match held {
            Some(n) => match take_node(reply) {
                Ok(Some(b)) => {
                    let mut n = n;
                    if b.is_dead() {
                        n.remove_child(*child);
                    }
                    settle_node(key, n)
                },
                Ok(None) => settle_node(key, n),
                Err(e) => Outcome::Fail(e),
            },
            None => Outcome::Fail(StoreError::StoreConflict),
        },
        _ => Outcome::Fail(StoreError::StoreConflict),
    }
}

/// What `task` does once the store has answered the round trip it was
/// waiting for.
pub fn decide(task: &Task, waiting: Waiting, held: Option<TrieNode>, reply: Reply) -> (out: Outcome)
    ensures
        out@ == decide_spec(task@, waiting, node_of(held), reply@),
{
    match waiting {
        Waiting::Ack => match reply {
            Reply::Done => Outcome::Next,
            _ => Outcome::Fail(StoreError::StoreConflict),
        },
        Waiting::Read => read_done(task, reply),
        Waiting::Child => child_done(task, held, reply),
        Waiting::Idle => Outcome::Fail(StoreError::StoreConflict),
    }
}

} // verus!
