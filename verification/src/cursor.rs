//! The cursor that walks a script one round trip at a time, and what a
//! script does to the store.

use vstd::prelude::*;
use crate::index::{enlisted, retracted};
use crate::migration::may_mutate;
use crate::node::{NodeView, TrieNode};
use crate::script::{
    decide, decide_spec, keys_in, ledger_in, node_in, node_of, open_task, opening, task_views,
    Outcome, OutcomeView, Task, TaskView, Waiting,
};
use crate::store::{
    respond, ErrorView, Kind, PayloadView, Reply, ReplyView, Request, RequestView, StoreError,
    StoreModel,
};

verus! {

/// How far an operation has come.
#[derive(Debug, Clone, PartialEq, Eq)]
pub enum Progress {
    /// The store is to perform this request; its reply is handed to `resume`.
    Ask(Request),
    /// The operation is complete.
    Finished,
    /// The operation gave up.
    Failed(StoreError),
}

/// The mathematical value of a [`Progress`].
pub enum ProgressView {
    Ask(RequestView),
    Finished,
    Failed(ErrorView),
}

impl View for Progress {
    type V = ProgressView;

    open spec fn view(&self) -> ProgressView {
        match *self {
            Progress::Ask(r) => ProgressView::Ask(r@),
            Progress::Finished => ProgressView::Finished,
            Progress::Failed(e) => ProgressView::Failed(e@),
        }
    }
}

/// A mutating operation under way: its script, the task it is at, and what
/// it is waiting for.
#[derive(Debug)]
pub struct WriteCursor {
    pub tasks: Vec<Task>,
    pub pos: usize,
    pub held: Option<TrieNode>,
    pub waiting: Waiting,
}

/// The mathematical value of a [`WriteCursor`].
pub struct CursorView {
    pub tasks: Seq<TaskView>,
    pub pos: int,
    pub held: Option<NodeView>,
    pub waiting: Waiting,
}

impl View for WriteCursor {
    type V = CursorView;

    open spec fn view(&self) -> CursorView {
        CursorView {
            tasks: task_views(self.tasks@),
            pos: self.pos as int,
            held: node_of(self.held),
            waiting: self.waiting,
        }
    }
}

impl CursorView {
    /// A cursor at the start of a script, before its first round trip.
    pub open spec fn fresh(tasks: Seq<TaskView>) -> CursorView {
        CursorView { tasks, pos: 0, held: None, waiting: Waiting::Idle }
    }

    /// Opens the task at `pos`, or finishes where the script is over.
    pub open spec fn launch(self) -> (CursorView, ProgressView) {
        if 0 <= self.pos < self.tasks.len() {
            let (request, waiting) = opening(self.tasks[self.pos]);
            (
                CursorView { tasks: self.tasks, pos: self.pos, held: None, waiting },
                ProgressView::Ask(request),
            )
        } else {
            (
                CursorView { tasks: self.tasks, pos: self.pos, held: None, waiting: Waiting::Idle },
                ProgressView::Finished,
            )
        }
    }

    /// Takes the store's reply to the request that is outstanding.
    pub open spec fn resume(self, reply: ReplyView) -> (CursorView, ProgressView) {
        if self.waiting == Waiting::Idle || !(0 <= self.pos < self.tasks.len()) {
            (
                CursorView { tasks: self.tasks, pos: self.pos, held: None, waiting: Waiting::Idle },
                ProgressView::Finished,
            )
        } else {
            match decide_spec(self.tasks[self.pos], self.waiting, self.held, reply) {
                OutcomeView::Ask { request, held, waiting } => (
                    CursorView { tasks: self.tasks, pos: self.pos, held, waiting },
                    ProgressView::Ask(request),
                ),
                OutcomeView::Next => (CursorView {
                    tasks: self.tasks,
                    pos: self.pos + 1,
                    held: None,
                    waiting: Waiting::Idle,
                }).launch(),
                OutcomeView::Fail(e) => (
                    CursorView {
                        tasks: self.tasks,
                        pos: self.pos,
                        held: None,
                        waiting: Waiting::Idle,
                    },
                    ProgressView::Failed(e),
                ),
            }
        }
    }
}

impl WriteCursor {
    /// Opens the task at `pos`, or finishes where the script is over.
    fn launch(&mut self) -> (progress: Progress)
        ensures
            (final(self)@, progress@) == old(self)@.launch(),
    {
        self.held = None;
        if self.pos < self.tasks.len() {
            let (request, waiting) = open_task(&self.tasks[self.pos]);
            self.waiting = waiting;
            Progress::Ask(request)
        } else {
            self.waiting = Waiting::Idle;
            Progress::Finished
        }
    }

    /// Starts on a script: the cursor, and the first request or `Finished`
    /// where the script is empty.
    pub fn begin(tasks: Vec<Task>) -> (out: (WriteCursor, Progress))
        ensures
            (out.0@, out.1@) == CursorView::fresh(task_views(tasks@)).launch(),
    {
        let mut cursor = WriteCursor { tasks, pos: 0, held: None, waiting: Waiting::Idle };
        let progress = cursor.launch();
        (cursor, progress)
    }

    /// Takes the store's reply to the request that was asked last, and says
    /// what comes next. Once the script is over, or has failed, every
    /// further call answers `Finished`.
    pub fn resume(&mut self, reply: Reply) -> (progress: Progress)
        ensures
            (final(self)@, progress@) == old(self)@.resume(reply@),
    {
        let mut held: Option<TrieNode> = None;
        core::mem::swap(&mut self.held, &mut held);
        if self.waiting == Waiting::Idle || self.pos >= self.tasks.len() {
            self.waiting = Waiting::Idle;
            return Progress::Finished;
        }
        match decide(&self.tasks[self.pos], self.waiting, held, reply) {
            Outcome::Ask { request, held, waiting } => {
                self.held = held;
                self.waiting = waiting;
                Progress::Ask(request)
            },
            Outcome::Next => {
                self.pos = self.pos + 1;
                self.waiting = Waiting::Idle;
                self.launch()
            },
            Outcome::Fail(e) => {
                self.waiting = Waiting::Idle;
                Progress::Failed(e)
            },
        }
    }
}

/// What a faithful store answers to a read of `key` as `kind`.
pub open spec fn read(s: StoreModel, key: Seq<char>, kind: Kind) -> ReplyView {
    respond(s, RequestView::Get { key, kind }).1
}

/// The store after a trie node was written back under `key`: a dead node
/// leaves no row.
pub open spec fn settled(s: StoreModel, key: Seq<char>, node: NodeView) -> StoreModel {
    if node.dead() {
        s.remove(key)
    } else {
        s.insert(key, PayloadView::Node(node))
    }
}

/// What one task does to the store, or the error it fails with.
pub open spec fn task_effect(s: StoreModel, task: TaskView) -> Result<StoreModel, ErrorView> {
    match task {
        TaskView::Put { key, value } => Ok(s.insert(key, value)),
        TaskView::Delete { key } => Ok(s.remove(key)),
        TaskView::Link { key, child } => match node_in(read(s, key, Kind::Node)) {
            Ok(Some(n)) => Ok(s.insert(key, PayloadView::Node(n.linked(child)))),
            Ok(None) => Ok(s.insert(key, PayloadView::Node(NodeView::blank().linked(child)))),
            Err(e) => Err(e),
        },
        TaskView::Mark { key, terminal } => match node_in(read(s, key, Kind::Node)) {
            Ok(Some(n)) => Ok(s.insert(key, PayloadView::Node(n.marked(terminal)))),
            Ok(None) => Ok(s.insert(key, PayloadView::Node(NodeView::blank().marked(terminal)))),
            Err(e) => Err(e),
        },
        TaskView::Unmark { key } => match node_in(read(s, key, Kind::Node)) {
            Ok(Some(n)) => Ok(settled(s, key, n.unmarked())),
            Ok(None) => Ok(s),
            Err(e) => Err(e),
        },
        TaskView::Prune { key, below, child } => match node_in(read(s, key, Kind::Node)) {
            Ok(Some(n)) => match node_in(read(s, below, Kind::Node)) {
                Ok(Some(b)) => Ok(
                    settled(
                        s,
                        key,
                        if b.dead() {
                            n.unlinked(child)
                        } else {
                            n
                        },
                    ),
                ),
                Ok(None) => Ok(settled(s, key, n)),
                Err(e) => Err(e),
            },
            Ok(None) => Ok(s),
            Err(e) => Err(e),
        },
        TaskView::Enlist { key, member } => match keys_in(read(s, key, Kind::Keys)) {
            Ok(Some(ks)) => Ok(s.insert(key, PayloadView::Keys(enlisted(ks, member)))),
            Ok(None) => Ok(s.insert(key, PayloadView::Keys(enlisted(Seq::empty(), member)))),
            Err(e) => Err(e),
        },
        TaskView::Retract { key, member } => match keys_in(read(s, key, Kind::Keys)) {
            Ok(Some(ks)) => if retracted(ks, member).len() == 0 {
                Ok(s.remove(key))
            } else {
                Ok(s.insert(key, PayloadView::Keys(retracted(ks, member))))
            },
            Ok(None) => Ok(s),
            Err(e) => Err(e),
        },
        TaskView::Guard { key, model, predecessor } => match ledger_in(read(s, key, Kind::Bytes)) {
            Ok(names) => if may_mutate(names, model, predecessor) {
                Ok(s)
            } else {
                Err(ErrorView::MigrationOrderError)
            },
            Err(e) => Err(e),
        },
    }
}

/// What the tasks of a script from `pos` on do to the store, one after
/// another; the first task that fails ends the script with its error.
pub open spec fn script_effect(s: StoreModel, tasks: Seq<TaskView>, pos: int) -> Result<
    StoreModel,
    ErrorView,
>
    decreases tasks.len() - pos,
{
    if 0 <= pos < tasks.len() {
        match task_effect(s, tasks[pos]) {
            Ok(next) => script_effect(next, tasks, pos + 1),
            Err(e) => Err(e),
        }
    } else {
        Ok(s)
    }
}

/// An operation run to its end against a faithful store: each request
/// is answered by the store, and the answer handed back to the cursor.
/// `fuel` bounds the number of round trips.
pub open spec fn drive(s: StoreModel, cursor: CursorView, progress: ProgressView, fuel: nat)
    -> Result<StoreModel, ErrorView>
    decreases fuel,
{
    match progress {
        ProgressView::Finished => Ok(s),
        ProgressView::Failed(e) => Err(e),
        ProgressView::Ask(request) => if fuel == 0 {
            Err(ErrorView::StoreConflict)
        } else {
            let (next, reply) = respond(s, request);
            let (cursor1, progress1) = cursor.resume(reply);
            drive(next, cursor1, progress1, (fuel - 1) as nat)
        },
    }
}

/// A cursor that has the script `tasks` before it from `pos` on, driven
/// against a faithful store, does to the store what the script says, and
/// fails where and as the script fails. Three round trips a task suffice.
pub proof fn lemma_cursor_follows_script(s: StoreModel, tasks: Seq<TaskView>, pos: int, fuel: nat)
    requires
        0 <= pos <= tasks.len(),
        fuel >= 3 * (tasks.len() - pos),
    ensures
        ({
            let start = CursorView { tasks, pos, held: None, waiting: Waiting::Idle };
            drive(s, start.launch().0, start.launch().1, fuel) == script_effect(s, tasks, pos)
        }),
    decreases tasks.len() - pos,
{
    reveal_with_fuel(drive, 4);
    if pos < tasks.len() {
        match task_effect(s, tasks[pos]) {
            Ok(next) => {
                assert(fuel >= 3);
                lemma_cursor_follows_script(next, tasks, pos + 1, (fuel - 1) as nat);
                lemma_cursor_follows_script(next, tasks, pos + 1, (fuel - 2) as nat);
                lemma_cursor_follows_script(next, tasks, pos + 1, (fuel - 3) as nat);
            },
            Err(_) => {},
        }
    }
}

} // verus!
