//! Entities as rows: one row for each field, an entry in the master trie,
//! and an entry in a secondary index for each indexed field.

use vstd::prelude::*;
use vstd::string::StringExecFns;
use crate::cursor::{CursorView, Progress, WriteCursor};
use crate::keys::{
    field_row_key, field_row_text, ledger_key, ledger_text, master_trie, master_trie_text,
    multi_index_key, multi_index_text, trie_entry, trie_entry_text, unique_index_key,
    unique_index_text,
};
use crate::node::text_of;
use crate::script::{task_views, Task, TaskView};
use crate::store::{Payload, PayloadView};
use crate::trie::{insert_tasks, remove_tasks, PrefixTrie};

verus! {

/// How a field is indexed.
#[derive(Debug, Clone, Copy, PartialEq, Eq, Structural)]
pub enum IndexKind {
    /// Not at all.
    Plain,
    /// By a multi index: many entities may share a value.
    Multi,
    /// By a unique index: a value leads to one entity.
    Unique,
}

/// One field of an entity, in its serialized forms: `encoded` is what the
/// field row holds, `json` the text by which an index finds the value.
#[derive(Debug, Clone, PartialEq, Eq)]
pub struct Field {
    pub name: String,
    pub index: IndexKind,
    pub encoded: Vec<u8>,
    pub json: String,
}

/// The mathematical value of a [`Field`].
pub struct FieldView {
    pub name: Seq<char>,
    pub index: IndexKind,
    pub encoded: Seq<u8>,
    pub json: Seq<char>,
}

impl View for Field {
    type V = FieldView;

    open spec fn view(&self) -> FieldView {
        FieldView {
            name: self.name@,
            index: self.index,
            encoded: self.encoded@,
            json: self.json@,
        }
    }
}

/// The views of a list of fields, in order.
pub open spec fn field_views(fields: Seq<Field>) -> Seq<FieldView> {
    Seq::new(fields.len(), |i: int| fields[i]@)
}

/// A record type: its name, the model it migrates from, if any, and whether
/// writes to it are guarded by the migration ledger.
#[derive(Debug, Clone, PartialEq, Eq)]
pub struct Model {
    pub name: String,
    pub predecessor: Option<String>,
    pub strict: bool,
}

/// The mathematical value of a [`Model`].
pub struct ModelView {
    pub name: Seq<char>,
    pub predecessor: Option<Seq<char>>,
    pub strict: bool,
}

impl View for Model {
    type V = ModelView;

    open spec fn view(&self) -> ModelView {
        ModelView {
            name: self.name@,
            predecessor: text_of(self.predecessor),
            strict: self.strict,
        }
    }
}

/// One record: its key in serialized form, and its fields, the key field
/// among them.
#[derive(Debug, Clone, PartialEq, Eq)]
pub struct Entity {
    pub key: String,
    pub fields: Vec<Field>,
}

/// The mathematical value of an [`Entity`].
pub struct EntityView {
    pub key: Seq<char>,
    pub fields: Seq<FieldView>,
}

impl View for Entity {
    type V = EntityView;

    open spec fn view(&self) -> EntityView {
        EntityView { key: self.key@, fields: field_views(self.fields@) }
    }
}

/// The names of a list of fields, in order.
pub open spec fn field_names(fields: Seq<FieldView>) -> Seq<Seq<char>> {
    Seq::new(fields.len(), |i: int| fields[i].name)
}

/// The encoded values of a list of fields, in order.
pub open spec fn field_values(fields: Seq<FieldView>) -> Seq<Seq<u8>> {
    Seq::new(fields.len(), |i: int| fields[i].encoded)
}

/// No two fields of the list have one name.
pub open spec fn distinct_names(fields: Seq<FieldView>) -> bool {
    forall|i: int, j: int| 0 <= i < j < fields.len() ==> fields[i].name != fields[j].name
}

/// The guard before a write: one read of the ledger in strict mode, nothing
/// otherwise.
pub open spec fn guard_tasks(m: ModelView) -> Seq<TaskView> {
    if m.strict {
        seq![
            TaskView::Guard { key: ledger_text(m.name), model: m.name, predecessor: m.predecessor },
        ]
    } else {
        Seq::empty()
    }
}

/// The write of the row of `f`.
pub open spec fn row_put(model: Seq<char>, key: Seq<char>, f: FieldView) -> TaskView {
    TaskView::Put {
        key: field_row_text(model, key, f.name),
        value: PayloadView::Bytes(f.encoded),
    }
}

/// The writes of all field rows, in field order.
pub open spec fn row_puts(model: Seq<char>, key: Seq<char>, fields: Seq<FieldView>) -> Seq<
    TaskView,
> {
    Seq::new(fields.len(), |i: int| row_put(model, key, fields[i]))
}

/// The deletes of all field rows, in field order.
pub open spec fn row_deletes(model: Seq<char>, key: Seq<char>, fields: Seq<FieldView>) -> Seq<
    TaskView,
> {
    Seq::new(
        fields.len(),
        |i: int| TaskView::Delete { key: field_row_text(model, key, fields[i].name) },
    )
}

/// How the entity `key` enters the index of `f`: a unique index maps the
/// value to the key, whatever it held; a multi index adds the key to the
/// value's set.
pub open spec fn enter_one(model: Seq<char>, key: Seq<char>, f: FieldView) -> Seq<TaskView> {
    match f.index {
        IndexKind::Plain => Seq::empty(),
        IndexKind::Unique => seq![
            TaskView::Put {
                key: unique_index_text(model, f.name, f.json),
                value: PayloadView::Key(key),
            },
        ],
        IndexKind::Multi => seq![
            TaskView::Enlist { key: multi_index_text(model, f.name, f.json), member: key },
        ],
    }
}

/// How the entity `key` leaves the index of `f`: a unique index forgets the
/// value, whatever it led to; a multi index takes the key out of the value's
/// set.
pub open spec fn leave_one(model: Seq<char>, key: Seq<char>, f: FieldView) -> Seq<TaskView> {
    match f.index {
        IndexKind::Plain => Seq::empty(),
        IndexKind::Unique => seq![TaskView::Delete { key: unique_index_text(model, f.name, f.json) }],
        IndexKind::Multi => seq![
            TaskView::Retract { key: multi_index_text(model, f.name, f.json), member: key },
        ],
    }
}

/// The index tasks by which an entity enters the indexes of its first
/// `upto` fields, in field order.
pub open spec fn enter_tasks(model: Seq<char>, key: Seq<char>, fields: Seq<FieldView>, upto: int)
    -> Seq<TaskView>
    decreases upto,
{
    if upto <= 0 {
        Seq::empty()
    } else {
        enter_tasks(model, key, fields, upto - 1) + enter_one(model, key, fields[upto - 1])
    }
}

/// The index tasks by which an entity leaves the indexes of its first `upto`
/// fields, in field order.
pub open spec fn leave_tasks(model: Seq<char>, key: Seq<char>, fields: Seq<FieldView>, upto: int)
    -> Seq<TaskView>
    decreases upto,
{
    if upto <= 0 {
        Seq::empty()
    } else {
        leave_tasks(model, key, fields, upto - 1) + leave_one(model, key, fields[upto - 1])
    }
}

/// The script that saves an entity: the guard, the entry in the master
/// trie, the field rows, the index entries.
pub open spec fn save_tasks(m: ModelView, e: EntityView) -> Seq<TaskView> {
    guard_tasks(m) + insert_tasks(master_trie_text(), trie_entry_text(m.name, e.key)) + row_puts(
        m.name,
        e.key,
        e.fields,
    ) + enter_tasks(m.name, e.key, e.fields, e.fields.len() as int)
}

/// The script that deletes an entity: the guard, the entry in the master
/// trie, the field rows, the index entries.
pub open spec fn delete_tasks(m: ModelView, e: EntityView) -> Seq<TaskView> {
    guard_tasks(m) + remove_tasks(master_trie_text(), trie_entry_text(m.name, e.key))
        + row_deletes(m.name, e.key, e.fields) + leave_tasks(
        m.name,
        e.key,
        e.fields,
        e.fields.len() as int,
    )
}

/// The field `f` with a new value.
pub open spec fn revalued(f: FieldView, encoded: Seq<u8>, json: Seq<char>) -> FieldView {
    FieldView { name: f.name, index: f.index, encoded, json }
}

/// The script that gives the field at `i` a new value: the guard, the index
/// entry of the old value retracted, that of the new value entered, the
/// field row overwritten.
pub open spec fn set_tasks(m: ModelView, e: EntityView, i: int, encoded: Seq<u8>, json: Seq<char>)
    -> Seq<TaskView> {
    guard_tasks(m) + leave_one(m.name, e.key, e.fields[i]) + enter_one(
        m.name,
        e.key,
        revalued(e.fields[i], encoded, json),
    ) + seq![row_put(m.name, e.key, revalued(e.fields[i], encoded, json))]
}

/// Appends the tasks of `more` to `tasks`.
fn extend(tasks: &mut Vec<Task>, more: Vec<Task>)
    ensures
        task_views(final(tasks)@) == task_views(old(tasks)@) + task_views(more@),
{
    let mut more = more;
    let ghost first = tasks@;
    let ghost second = more@;
    tasks.append(&mut more);
    assert(task_views(tasks@) =~= task_views(first) + task_views(second));
}

/// A copy of a byte vector.
fn copy_bytes(bytes: &Vec<u8>) -> (out: Vec<u8>)
    ensures
        out@ == bytes@,
{
    let mut out: Vec<u8> = Vec::new();
    let mut i: usize = 0;
    while i < bytes.len()
        invariant
            i <= bytes.len(),
            out@ == bytes@.take(i as int),
        decreases bytes.len() - i,
    {
        out.push(bytes[i]);
        assert(bytes@.take(i + 1) =~= bytes@.take(i as int).push(bytes@[i as int]));
        i += 1;
    }
    assert(bytes@.take(i as int) =~= bytes@);
    out
}

impl Model {
    /// The guard before a write to this model.
    pub fn guard_script(&self) -> (tasks: Vec<Task>)
        ensures
            task_views(tasks@) == guard_tasks(self@),
    {
        let mut tasks: Vec<Task> = Vec::new();
        if self.strict {
            let predecessor = match &self.predecessor {
                Some(p) => Some(p.clone()),
                None => None,
            };
            tasks.push(
                Task::Guard {
                    key: ledger_key(self.name.as_str()),
                    model: self.name.clone(),
                    predecessor,
                },
            );
        }
        assert(task_views(tasks@) =~= guard_tasks(self@));
        tasks
    }

    /// The index task by which the entity `key` enters the index of `f`.
    fn enter_script(&self, key: &String, f: &Field) -> (tasks: Vec<Task>)
        ensures
            task_views(tasks@) == enter_one(self.name@, key@, f@),
    {
        let mut tasks: Vec<Task> = Vec::new();
        match f.index {
            IndexKind::Plain => {},
            IndexKind::Unique => {
                tasks.push(
                    Task::Put {
                        key: unique_index_key(
                            self.name.as_str(),
                            f.name.as_str(),
                            f.json.as_str(),
                        ),
                        value: Payload::Key(key.clone()),
                    },
                );
            },
            IndexKind::Multi => {
                tasks.push(
                    Task::Enlist {
                        key: multi_index_key(self.name.as_str(), f.name.as_str(), f.json.as_str()),
                        member: key.clone(),
                    },
                );
            },
        }
        assert(task_views(tasks@) =~= enter_one(self.name@, key@, f@));
        tasks
    }

    /// The index task by which the entity `key` leaves the index of `f`.
    fn leave_script(&self, key: &String, f: &Field) -> (tasks: Vec<Task>)
        ensures
            task_views(tasks@) == leave_one(self.name@, key@, f@),
    {
        let mut tasks: Vec<Task> = Vec::new();
        match f.index {
            IndexKind::Plain => {},
            IndexKind::Unique => {
                tasks.push(
                    Task::Delete {
                        key: unique_index_key(
                            self.name.as_str(),
                            f.name.as_str(),
                            f.json.as_str(),
                        ),
                    },
                );
            },
            IndexKind::Multi => {
                tasks.push(
                    Task::Retract {
                        key: multi_index_key(self.name.as_str(), f.name.as_str(), f.json.as_str()),
                        member: key.clone(),
                    },
                );
            },
        }
        assert(task_views(tasks@) =~= leave_one(self.name@, key@, f@));
        tasks
    }

    /// The script that saves `entity`.
    pub fn save_script(&self, entity: &Entity) -> (tasks: Vec<Task>)
        ensures
            task_views(tasks@) == save_tasks(self@, entity@),
    {
        let mut tasks = self.guard_script();
        let trie = PrefixTrie::new(master_trie().as_str());
        let entry = trie_entry(self.name.as_str(), entity.key.as_str());
        proof {
            reveal_strlit(":");
            assert(entry@.len() > 0);
        }
        extend(&mut tasks, trie.link_script(entry.as_str()));
        let ghost head = task_views(tasks@);
        let mut i: usize = 0;
        while i < entity.fields.len()
            invariant
                i <= entity.fields.len(),
                task_views(tasks@) == head + row_puts(self.name@, entity.key@, entity@.fields).take(
                    i as int,
                ),
            decreases entity.fields.len() - i,
        {
            let f = &entity.fields[i];
            let ghost before = task_views(tasks@);
            tasks.push(
                Task::Put {
                    key: field_row_key(self.name.as_str(), entity.key.as_str(), f.name.as_str()),
                    value: Payload::Bytes(copy_bytes(&f.encoded)),
                },
            );
            assert(task_views(tasks@) =~= before.push(row_put(self.name@, entity.key@, f@)));
            assert(row_puts(self.name@, entity.key@, entity@.fields).take(i + 1) =~= row_puts(
                self.name@,
                entity.key@,
                entity@.fields,
            ).take(i as int).push(row_put(self.name@, entity.key@, f@)));
            assert(task_views(tasks@) =~= head + row_puts(
                self.name@,
                entity.key@,
                entity@.fields,
            ).take(i + 1));
            i += 1;
        }
        assert(row_puts(self.name@, entity.key@, entity@.fields).take(i as int) =~= row_puts(
            self.name@,
            entity.key@,
            entity@.fields,
        ));
        let ghost rows = task_views(tasks@);
        let mut j: usize = 0;
        while j < entity.fields.len()
            invariant
                j <= entity.fields.len(),
                task_views(tasks@) == rows + enter_tasks(
                    self.name@,
                    entity.key@,
                    entity@.fields,
                    j as int,
                ),
            decreases entity.fields.len() - j,
        {
            let more = self.enter_script(&entity.key, &entity.fields[j]);
            extend(&mut tasks, more);
            assert(task_views(tasks@) =~= rows + enter_tasks(
                self.name@,
                entity.key@,
                entity@.fields,
                j + 1,
            ));
            j += 1;
        }
        tasks
    }

    /// The script that deletes `entity`.
    pub fn delete_script(&self, entity: &Entity) -> (tasks: Vec<Task>)
        ensures
            task_views(tasks@) == delete_tasks(self@, entity@),
    {
        let mut tasks = self.guard_script();
        let trie = PrefixTrie::new(master_trie().as_str());
        let entry = trie_entry(self.name.as_str(), entity.key.as_str());
        extend(&mut tasks, trie.remove_script(entry.as_str()));
        let ghost head = task_views(tasks@);
        let mut i: usize = 0;
        while i < entity.fields.len()
            invariant
                i <= entity.fields.len(),
                task_views(tasks@) == head + row_deletes(
                    self.name@,
                    entity.key@,
                    entity@.fields,
                ).take(i as int),
            decreases entity.fields.len() - i,
        {
            let f = &entity.fields[i];
            let ghost before = task_views(tasks@);
            let ghost gone = TaskView::Delete {
                key: field_row_text(self.name@, entity.key@, f@.name),
            };
            tasks.push(
                Task::Delete {
                    key: field_row_key(self.name.as_str(), entity.key.as_str(), f.name.as_str()),
                },
            );
            assert(task_views(tasks@) =~= before.push(gone));
            assert(row_deletes(self.name@, entity.key@, entity@.fields).take(i + 1)
                =~= row_deletes(self.name@, entity.key@, entity@.fields).take(i as int).push(gone));
            assert(task_views(tasks@) =~= head + row_deletes(
                self.name@,
                entity.key@,
                entity@.fields,
            ).take(i + 1));
            i += 1;
        }
        assert(row_deletes(self.name@, entity.key@, entity@.fields).take(i as int) =~= row_deletes(
            self.name@,
            entity.key@,
            entity@.fields,
        ));
        let ghost rows = task_views(tasks@);
        let mut j: usize = 0;
        while j < entity.fields.len()
            invariant
                j <= entity.fields.len(),
                task_views(tasks@) == rows + leave_tasks(
                    self.name@,
                    entity.key@,
                    entity@.fields,
                    j as int,
                ),
            decreases entity.fields.len() - j,
        {
            let more = self.leave_script(&entity.key, &entity.fields[j]);
            extend(&mut tasks, more);
            assert(task_views(tasks@) =~= rows + leave_tasks(
                self.name@,
                entity.key@,
                entity@.fields,
                j + 1,
            ));
            j += 1;
        }
        tasks
    }

    /// Starts saving `entity`: a cursor over the save script and its first
    /// request.
    pub fn save(&self, entity: &Entity) -> (out: (WriteCursor, Progress))
        ensures
            (out.0@, out.1@) == CursorView::fresh(save_tasks(self@, entity@)).launch(),
    {
        WriteCursor::begin(self.save_script(entity))
    }

    /// Starts deleting `entity`: a cursor over the delete script and its
    /// first request.
    pub fn delete(&self, entity: &Entity) -> (out: (WriteCursor, Progress))
        ensures
            (out.0@, out.1@) == CursorView::fresh(delete_tasks(self@, entity@)).launch(),
    {
        WriteCursor::begin(self.delete_script(entity))
    }

    /// Starts giving the field at `i` of `entity` a new value: the copy in
    /// memory takes the value at once, and the cursor walks the script that
    /// moves the index entry and overwrites the field row. `None`, and the
    /// entity as it was, where it has no field at `i`.
    pub fn set_field(&self, entity: &mut Entity, i: usize, encoded: Vec<u8>, json: String) -> (out:
        Option<(WriteCursor, Progress)>)
        ensures
            out is Some <==> i < old(entity)@.fields.len(),
            out is None ==> final(entity)@ == old(entity)@,
            out is Some ==> {
                &&& final(entity)@.key == old(entity)@.key
                &&& final(entity)@.fields == old(entity)@.fields.update(
                    i as int,
                    revalued(old(entity)@.fields[i as int], encoded@, json@),
                )
                &&& ({
                    let (cursor, progress) = out.unwrap();
                    (cursor@, progress@)
                }) == CursorView::fresh(
                    set_tasks(self@, old(entity)@, i as int, encoded@, json@),
                ).launch()
            },
    {
        if i >= entity.fields.len() {
            return None;
        }
        let mut tasks = self.guard_script();
        extend(&mut tasks, self.leave_script(&entity.key, &entity.fields[i]));
        let renewed = Field {
            name: entity.fields[i].name.clone(),
            index: entity.fields[i].index,
            encoded,
            json,
        };
        extend(&mut tasks, self.enter_script(&entity.key, &renewed));
        let ghost before = task_views(tasks@);
        tasks.push(
            Task::Put {
                key: field_row_key(
                    self.name.as_str(),
                    entity.key.as_str(),
                    renewed.name.as_str(),
                ),
                value: Payload::Bytes(copy_bytes(&renewed.encoded)),
            },
        );
        assert(task_views(tasks@) =~= before + seq![
            row_put(self.name@, entity.key@, renewed@),
        ]);
        let ghost fields = entity.fields@;
        entity.fields[i] = renewed;
        assert(field_views(entity.fields@) =~= field_views(fields).update(i as int, renewed@));
        Some(WriteCursor::begin(tasks))
    }
}

} // verus!
