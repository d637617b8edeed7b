//! What holds of saving, deleting and loading an entity, whatever the store
//! held before.

use vstd::prelude::*;
use crate::cursor::{read, script_effect, task_effect};
use crate::entity::{
    delete_tasks, distinct_names, enter_one, enter_tasks, field_names, field_values, guard_tasks,
    leave_one, leave_tasks, row_deletes, row_puts, save_tasks, set_tasks, EntityView, FieldView,
    IndexKind, ModelView,
};
use crate::frame::{
    head_of, lemma_index_heads, lemma_ledger_apart, lemma_model_keys, lemma_row_head, lemma_rows_apart,
    lemma_script_concat, lemma_script_frame, lemma_trie_apart, model_key, same_at, sound_key,
    sound_model, task_key,
};
use crate::index::{lemma_enlisted_holds, lemma_retracted_lacks};
use crate::keys::{
    field_row_text, ledger_text, master_trie_text, multi_index_text, trie_entry_text,
    unique_index_text,
};
use crate::load::{load, load_from, multi_in, unique_in, LoaderView};
use crate::migration::may_mutate;
use crate::script::ledger_in;
use crate::script::TaskView;
use crate::store::{ErrorView, Kind, PayloadView, StoreModel};
use crate::stream::stripped;
use crate::trie::{insert_task, insert_tasks, remove_tasks};
use crate::trie_laws::{
    chained, extends, faithful, lemma_insert_grows, lemma_insert_keeps_faithful, lemma_insert_links,
    lemma_remove_clears, lemma_remove_keeps_faithful, node_at,
};
use crate::walk::{linked, marked_below};

verus! {

/// Whether `text` is the key of an index entry of `model`, by the character
/// at which the key formats part ways.
pub open spec fn index_key(model: Seq<char>, text: Seq<char>) -> bool {
    head_of(model, text) == Some('u') || head_of(model, text) == Some('i')
}

/// The store holds the encoded value of every field of the list from `pos`
/// on under the key of its row.
pub open spec fn rows_stored(
    s: StoreModel,
    model: Seq<char>,
    key: Seq<char>,
    fields: Seq<FieldView>,
    pos: int,
) -> bool {
    forall|i: int|
        pos <= i < fields.len() ==> s.dom().contains(
            #[trigger] field_row_text(model, key, fields[i].name),
        ) && s[field_row_text(model, key, fields[i].name)] == PayloadView::Bytes(fields[i].encoded)
}

/// Writing the field rows from `pos` on succeeds and leaves each of them in
/// the store, and the rows before them as they were.
proof fn lemma_rows_written(
    s: StoreModel,
    model: Seq<char>,
    key: Seq<char>,
    fields: Seq<FieldView>,
    pos: int,
)
    requires
        0 <= pos <= fields.len(),
        distinct_names(fields),
    ensures
        script_effect(s, row_puts(model, key, fields), pos) is Ok,
        rows_stored(script_effect(s, row_puts(model, key, fields), pos)->Ok_0, model, key, fields, pos),
        forall|i: int|
            0 <= i < pos ==> same_at(
                script_effect(s, row_puts(model, key, fields), pos)->Ok_0,
                s,
                #[trigger] field_row_text(model, key, fields[i].name),
            ),
    decreases fields.len() - pos,
{
    let tasks = row_puts(model, key, fields);
    if pos < fields.len() {
        let own = field_row_text(model, key, fields[pos].name);
        let next = s.insert(own, PayloadView::Bytes(fields[pos].encoded));
        lemma_rows_written(next, model, key, fields, pos + 1);
        let end = script_effect(s, tasks, pos)->Ok_0;
        assert forall|i: int| 0 <= i < pos implies same_at(
            end,
            s,
            #[trigger] field_row_text(model, key, fields[i].name),
        ) by {
            lemma_rows_apart(model, key, fields[i].name, fields[pos].name);
        }
    }
}

/// Deleting the field rows from `pos` on succeeds and leaves none of the
/// entity's rows that was gone before or is deleted now.
proof fn lemma_rows_deleted(
    s: StoreModel,
    model: Seq<char>,
    key: Seq<char>,
    fields: Seq<FieldView>,
    pos: int,
    gone: Seq<char>,
)
    requires
        0 <= pos <= fields.len(),
        !s.dom().contains(gone) || exists|i: int|
            pos <= i < fields.len() && gone == field_row_text(model, key, fields[i].name),
    ensures
        script_effect(s, row_deletes(model, key, fields), pos) is Ok,
        !script_effect(s, row_deletes(model, key, fields), pos)->Ok_0.dom().contains(gone),
    decreases fields.len() - pos,
{
    let tasks = row_deletes(model, key, fields);
    if pos < fields.len() {
        let own = field_row_text(model, key, fields[pos].name);
        let next = s.remove(own);
        assert(task_effect(s, tasks[pos]) == Ok::<StoreModel, ErrorView>(next));
        if s.dom().contains(gone) && gone != own {
            let i = choose|i: int|
                pos <= i < fields.len() && gone == field_row_text(model, key, fields[i].name);
            assert(pos + 1 <= i < fields.len());
        }
        lemma_rows_deleted(next, model, key, fields, pos + 1, gone);
    }
}

/// Every index task of an entity has the key of an index entry of its model.
proof fn lemma_index_tasks_keys(
    model: Seq<char>,
    key: Seq<char>,
    fields: Seq<FieldView>,
    upto: int,
)
    requires
        0 <= upto <= fields.len(),
    ensures
        forall|j: int|
            0 <= j < enter_tasks(model, key, fields, upto).len() ==> index_key(
                model,
                task_key(#[trigger] enter_tasks(model, key, fields, upto)[j]),
            ),
        forall|j: int|
            0 <= j < leave_tasks(model, key, fields, upto).len() ==> index_key(
                model,
                task_key(#[trigger] leave_tasks(model, key, fields, upto)[j]),
            ),
    decreases upto,
{
    if upto > 0 {
        lemma_index_tasks_keys(model, key, fields, upto - 1);
        let f = fields[upto - 1];
        lemma_index_heads(model, f.name, f.json);
        let before = enter_tasks(model, key, fields, upto - 1);
        let all = enter_tasks(model, key, fields, upto);
        assert forall|j: int| 0 <= j < all.len() implies index_key(
            model,
            task_key(#[trigger] all[j]),
        ) by {
            if j < before.len() {
                assert(all[j] == before[j]);
            } else {
                assert(all[j] == enter_one(model, key, f)[j - before.len()]);
            }
        }
        let left = leave_tasks(model, key, fields, upto - 1);
        let gone = leave_tasks(model, key, fields, upto);
        assert forall|j: int| 0 <= j < gone.len() implies index_key(
            model,
            task_key(#[trigger] gone[j]),
        ) by {
            if j < left.len() {
                assert(gone[j] == left[j]);
            } else {
                assert(gone[j] == leave_one(model, key, f)[j - left.len()]);
            }
        }
    }
}

/// A load reads the rows that the store holds for every field.
proof fn lemma_load_reads_rows(
    s: StoreModel,
    model: Seq<char>,
    key: Seq<char>,
    fields: Seq<FieldView>,
    rows: Seq<Seq<u8>>,
)
    requires
        rows.len() <= fields.len(),
        rows == field_values(fields).take(rows.len() as int),
        rows_stored(s, model, key, fields, 0),
    ensures
        load_from(
            s,
            LoaderView { model, key, names: field_names(fields), rows, over: false },
        ) == Ok::<Seq<Seq<u8>>, ErrorView>(field_values(fields)),
    decreases fields.len() - rows.len(),
{
    if rows.len() < fields.len() {
        let i = rows.len() as int;
        let row = field_row_text(model, key, fields[i].name);
        assert(s.dom().contains(row) && s[row] == PayloadView::Bytes(fields[i].encoded));
        let more = rows.push(fields[i].encoded);
        assert(more =~= field_values(fields).take(more.len() as int));
        lemma_load_reads_rows(s, model, key, fields, more);
    } else {
        assert(rows =~= field_values(fields));
    }
}

/// Where saving an entity succeeds, the store as the save left it holds
/// the encoded value of every field under the key of its row.
proof fn lemma_rows_after_save(s: StoreModel, m: ModelView, e: EntityView)
    requires
        sound_key(e.key),
        distinct_names(e.fields),
        script_effect(s, save_tasks(m, e), 0) is Ok,
    ensures
        rows_stored(script_effect(s, save_tasks(m, e), 0)->Ok_0, m.name, e.key, e.fields, 0),
{
    let head = guard_tasks(m) + insert_tasks(master_trie_text(), trie_entry_text(m.name, e.key));
    let rows = row_puts(m.name, e.key, e.fields);
    let index = enter_tasks(m.name, e.key, e.fields, e.fields.len() as int);
    lemma_script_concat(s, head + rows, index);
    lemma_script_concat(s, head, rows);
    let s1 = script_effect(s, head, 0)->Ok_0;
    lemma_rows_written(s1, m.name, e.key, e.fields, 0);
    let s2 = script_effect(s1, rows, 0)->Ok_0;
    let s3 = script_effect(s2, index, 0)->Ok_0;
    lemma_index_tasks_keys(m.name, e.key, e.fields, e.fields.len() as int);
    assert forall|i: int| 0 <= i < e.fields.len() implies s3.dom().contains(
        #[trigger] field_row_text(m.name, e.key, e.fields[i].name),
    ) && s3[field_row_text(m.name, e.key, e.fields[i].name)] == PayloadView::Bytes(
        e.fields[i].encoded,
    ) by {
        let row = field_row_text(m.name, e.key, e.fields[i].name);
        lemma_row_head(m.name, e.key, e.fields[i].name);
        lemma_script_frame(s2, index, 0, row);
    }
}

/// Round trip: where saving an entity succeeds, loading it from the store
/// as the save left it gives the encoded value of every field, in field
/// order. The entity's key is sound and its fields have distinct names.
pub proof fn lemma_load_after_save(s: StoreModel, m: ModelView, e: EntityView)
    requires
        sound_key(e.key),
        distinct_names(e.fields),
        script_effect(s, save_tasks(m, e), 0) is Ok,
    ensures
        load(script_effect(s, save_tasks(m, e), 0)->Ok_0, m.name, e.key, field_names(e.fields))
            == Ok::<Seq<Seq<u8>>, ErrorView>(field_values(e.fields)),
{
    lemma_rows_after_save(s, m, e);
    assert(Seq::<Seq<u8>>::empty() =~= field_values(e.fields).take(0));
    lemma_load_reads_rows(
        script_effect(s, save_tasks(m, e), 0)->Ok_0,
        m.name,
        e.key,
        e.fields,
        Seq::empty(),
    );
}

/// Delete-then-load: where deleting an entity succeeds, loading it from
/// the store as the delete left it fails with `NotFound` for its first
/// field. The entity's key is sound, and it has at least its key field.
pub proof fn lemma_load_after_delete(s: StoreModel, m: ModelView, e: EntityView)
    requires
        sound_key(e.key),
        e.fields.len() > 0,
        script_effect(s, delete_tasks(m, e), 0) is Ok,
    ensures
        load(script_effect(s, delete_tasks(m, e), 0)->Ok_0, m.name, e.key, field_names(e.fields))
            == Err::<Seq<Seq<u8>>, ErrorView>(ErrorView::NotFound { field: e.fields[0].name }),
{
    let head = guard_tasks(m) + remove_tasks(master_trie_text(), trie_entry_text(m.name, e.key));
    let rows = row_deletes(m.name, e.key, e.fields);
    let index = leave_tasks(m.name, e.key, e.fields, e.fields.len() as int);
    lemma_script_concat(s, head + rows, index);
    lemma_script_concat(s, head, rows);
    let s1 = script_effect(s, head, 0)->Ok_0;
    let row = field_row_text(m.name, e.key, e.fields[0].name);
    lemma_rows_deleted(s1, m.name, e.key, e.fields, 0, row);
    let s2 = script_effect(s1, rows, 0)->Ok_0;
    let s3 = script_effect(s2, index, 0)->Ok_0;
    lemma_index_tasks_keys(m.name, e.key, e.fields, e.fields.len() as int);
    lemma_row_head(m.name, e.key, e.fields[0].name);
    lemma_script_frame(s2, index, 0, row);
    assert(!s3.dom().contains(row));
}

/// The entity `key` is entered in the index of `f`: the unique index entry
/// of the field's value leads to it, or the multi index entry holds it.
pub open spec fn indexed(s: StoreModel, model: Seq<char>, key: Seq<char>, f: FieldView) -> bool {
    match f.index {
        IndexKind::Plain => true,
        IndexKind::Unique => unique_in(
            read(s, unique_index_text(model, f.name, f.json), Kind::Key),
        ) == Ok::<Option<Seq<char>>, ErrorView>(Some(key)),
        IndexKind::Multi => {
            let found = multi_in(read(s, multi_index_text(model, f.name, f.json), Kind::Keys));
            found is Ok && found->Ok_0.contains(key)
        },
    }
}

/// The entity `key` is not entered in the index of `f`: the unique index
/// has no entry for the field's value, and the multi index entry, if there
/// is one, does not hold the key.
pub open spec fn unindexed(s: StoreModel, model: Seq<char>, key: Seq<char>, f: FieldView) -> bool {
    match f.index {
        IndexKind::Plain => true,
        IndexKind::Unique => unique_in(
            read(s, unique_index_text(model, f.name, f.json), Kind::Key),
        ) == Ok::<Option<Seq<char>>, ErrorView>(None),
        IndexKind::Multi => {
            let found = multi_in(read(s, multi_index_text(model, f.name, f.json), Kind::Keys));
            found is Ok && !found->Ok_0.contains(key)
        },
    }
}

/// An index task by which the entity `key` enters an index leaves it
/// entered in the index of every field in which it was.
proof fn lemma_enter_keeps(
    s: StoreModel,
    model: Seq<char>,
    key: Seq<char>,
    last: FieldView,
    f: FieldView,
)
    requires
        script_effect(s, enter_one(model, key, last), 0) is Ok,
        indexed(s, model, key, f) || f == last,
    ensures
        indexed(script_effect(s, enter_one(model, key, last), 0)->Ok_0, model, key, f),
{
    reveal_with_fuel(script_effect, 3);
    lemma_index_heads(model, last.name, last.json);
    lemma_index_heads(model, f.name, f.json);
    match last.index {
        IndexKind::Multi => {
            let own = multi_index_text(model, last.name, last.json);
            let task = TaskView::Enlist { key: own, member: key };
            assert(enter_one(model, key, last)[0] == task);
            let held = crate::script::keys_in(read(s, own, Kind::Keys));
            match held {
                Ok(Some(ks)) => lemma_enlisted_holds(ks, key),
                Ok(None) => lemma_enlisted_holds(Seq::empty(), key),
                Err(_) => {},
            }
        },
        IndexKind::Unique => {
            let own = unique_index_text(model, last.name, last.json);
        },
        IndexKind::Plain => {},
    }
}

/// An index task by which the entity `key` leaves an index leaves it out
/// of the index of every field out of which it was.
proof fn lemma_leave_keeps(
    s: StoreModel,
    model: Seq<char>,
    key: Seq<char>,
    last: FieldView,
    f: FieldView,
)
    requires
        script_effect(s, leave_one(model, key, last), 0) is Ok,
        unindexed(s, model, key, f) || f == last,
    ensures
        unindexed(script_effect(s, leave_one(model, key, last), 0)->Ok_0, model, key, f),
{
    reveal_with_fuel(script_effect, 3);
    lemma_index_heads(model, last.name, last.json);
    lemma_index_heads(model, f.name, f.json);
    match last.index {
        IndexKind::Multi => {
            let own = multi_index_text(model, last.name, last.json);
            let task = TaskView::Retract { key: own, member: key };
            assert(leave_one(model, key, last)[0] == task);
            let held = crate::script::keys_in(read(s, own, Kind::Keys));
            match held {
                Ok(Some(ks)) => lemma_retracted_lacks(ks, key),
                _ => {},
            }
        },
        IndexKind::Unique => {
            let own = unique_index_text(model, last.name, last.json);
        },
        IndexKind::Plain => {},
    }
}

/// Once the index tasks of the first `upto` fields are done, the entity is
/// entered in the index of each of them.
proof fn lemma_entered(
    s: StoreModel,
    model: Seq<char>,
    key: Seq<char>,
    fields: Seq<FieldView>,
    upto: int,
    i: int,
)
    requires
        0 <= i < upto <= fields.len(),
        script_effect(s, enter_tasks(model, key, fields, upto), 0) is Ok,
    ensures
        indexed(
            script_effect(s, enter_tasks(model, key, fields, upto), 0)->Ok_0,
            model,
            key,
            fields[i],
        ),
    decreases upto,
{
    let before = enter_tasks(model, key, fields, upto - 1);
    let last = enter_one(model, key, fields[upto - 1]);
    lemma_script_concat(s, before, last);
    let mid = script_effect(s, before, 0)->Ok_0;
    if i < upto - 1 {
        lemma_entered(s, model, key, fields, upto - 1, i);
    }
    lemma_enter_keeps(mid, model, key, fields[upto - 1], fields[i]);
}

/// Once the index tasks of the first `upto` fields are done, the entity is
/// out of the index of each of them.
proof fn lemma_left(
    s: StoreModel,
    model: Seq<char>,
    key: Seq<char>,
    fields: Seq<FieldView>,
    upto: int,
    i: int,
)
    requires
        0 <= i < upto <= fields.len(),
        script_effect(s, leave_tasks(model, key, fields, upto), 0) is Ok,
    ensures
        unindexed(
            script_effect(s, leave_tasks(model, key, fields, upto), 0)->Ok_0,
            model,
            key,
            fields[i],
        ),
    decreases upto,
{
    let before = leave_tasks(model, key, fields, upto - 1);
    let last = leave_one(model, key, fields[upto - 1]);
    lemma_script_concat(s, before, last);
    let mid = script_effect(s, before, 0)->Ok_0;
    if i < upto - 1 {
        lemma_left(s, model, key, fields, upto - 1, i);
    }
    lemma_leave_keeps(mid, model, key, fields[upto - 1], fields[i]);
}

/// Index after save: where saving an entity succeeds, the store as the save
/// left it leads from the value of each indexed field to the entity: the
/// unique index entry of the value holds the entity's key, the multi index
/// entry of the value holds it among its keys.
pub proof fn lemma_indexed_after_save(s: StoreModel, m: ModelView, e: EntityView, i: int)
    requires
        0 <= i < e.fields.len(),
        script_effect(s, save_tasks(m, e), 0) is Ok,
    ensures
        indexed(script_effect(s, save_tasks(m, e), 0)->Ok_0, m.name, e.key, e.fields[i]),
{
    let head = guard_tasks(m) + insert_tasks(master_trie_text(), trie_entry_text(m.name, e.key))
        + row_puts(m.name, e.key, e.fields);
    let index = enter_tasks(m.name, e.key, e.fields, e.fields.len() as int);
    lemma_script_concat(s, head, index);
    lemma_entered(script_effect(s, head, 0)->Ok_0, m.name, e.key, e.fields, e.fields.len() as int, i);
}

/// Index after delete: where deleting an entity succeeds, the store as the
/// delete left it leads from the value of no indexed field to the entity:
/// the unique index has no entry for the value, and the multi index entry
/// of the value, if one is left, does not hold the entity's key.
pub proof fn lemma_unindexed_after_delete(s: StoreModel, m: ModelView, e: EntityView, i: int)
    requires
        0 <= i < e.fields.len(),
        script_effect(s, delete_tasks(m, e), 0) is Ok,
    ensures
        unindexed(script_effect(s, delete_tasks(m, e), 0)->Ok_0, m.name, e.key, e.fields[i]),
{
    let head = guard_tasks(m) + remove_tasks(master_trie_text(), trie_entry_text(m.name, e.key))
        + row_deletes(m.name, e.key, e.fields);
    let index = leave_tasks(m.name, e.key, e.fields, e.fields.len() as int);
    lemma_script_concat(s, head, index);
    lemma_left(script_effect(s, head, 0)->Ok_0, m.name, e.key, e.fields, e.fields.len() as int, i);
}

/// Every row and index task of an entity has a key with the head of the
/// rows of its model.
proof fn lemma_entity_tasks_keys(model: Seq<char>, key: Seq<char>, fields: Seq<FieldView>, upto: int)
    requires
        0 <= upto <= fields.len(),
    ensures
        forall|j: int|
            0 <= j < row_puts(model, key, fields).len() ==> model_key(
                model,
                task_key(#[trigger] row_puts(model, key, fields)[j]),
            ),
        forall|j: int|
            0 <= j < row_deletes(model, key, fields).len() ==> model_key(
                model,
                task_key(#[trigger] row_deletes(model, key, fields)[j]),
            ),
        forall|j: int|
            0 <= j < enter_tasks(model, key, fields, upto).len() ==> model_key(
                model,
                task_key(#[trigger] enter_tasks(model, key, fields, upto)[j]),
            ),
        forall|j: int|
            0 <= j < leave_tasks(model, key, fields, upto).len() ==> model_key(
                model,
                task_key(#[trigger] leave_tasks(model, key, fields, upto)[j]),
            ),
    decreases upto,
{
    assert forall|j: int| 0 <= j < row_puts(model, key, fields).len() implies model_key(
        model,
        task_key(#[trigger] row_puts(model, key, fields)[j]),
    ) by {
        lemma_model_keys(model, key, fields[j].name);
    }
    assert forall|j: int| 0 <= j < row_deletes(model, key, fields).len() implies model_key(
        model,
        task_key(#[trigger] row_deletes(model, key, fields)[j]),
    ) by {
        lemma_model_keys(model, key, fields[j].name);
    }
    if upto > 0 {
        lemma_entity_tasks_keys(model, key, fields, upto - 1);
        let f = fields[upto - 1];
        lemma_model_keys(model, f.name, f.json);
        let before = enter_tasks(model, key, fields, upto - 1);
        let all = enter_tasks(model, key, fields, upto);
        assert forall|j: int| 0 <= j < all.len() implies model_key(
            model,
            task_key(#[trigger] all[j]),
        ) by {
            if j < before.len() {
                assert(all[j] == before[j]);
            } else {
                assert(all[j] == enter_one(model, key, f)[j - before.len()]);
            }
        }
        let left = leave_tasks(model, key, fields, upto - 1);
        let gone = leave_tasks(model, key, fields, upto);
        assert forall|j: int| 0 <= j < gone.len() implies model_key(
            model,
            task_key(#[trigger] gone[j]),
        ) by {
            if j < left.len() {
                assert(gone[j] == left[j]);
            } else {
                assert(gone[j] == leave_one(model, key, f)[j - left.len()]);
            }
        }
    }
}

/// A script whose tasks all have keys with the head of the rows of a model
/// leaves every node of the master trie as it was.
proof fn lemma_trie_untouched(s: StoreModel, model: Seq<char>, tasks: Seq<TaskView>)
    requires
        sound_model(model),
        script_effect(s, tasks, 0) is Ok,
        forall|j: int| 0 <= j < tasks.len() ==> model_key(model, task_key(#[trigger] tasks[j])),
    ensures
        forall|path: Seq<char>|
            node_at(script_effect(s, tasks, 0)->Ok_0, master_trie_text(), path)
                == #[trigger] node_at(s, master_trie_text(), path),
{
    let end = script_effect(s, tasks, 0)->Ok_0;
    assert forall|path: Seq<char>|
        node_at(end, master_trie_text(), path) == #[trigger] node_at(
            s,
            master_trie_text(),
            path,
        ) by {
        let node = crate::keys::node_text(master_trie_text(), path);
        assert forall|j: int| 0 <= j < tasks.len() implies task_key(#[trigger] tasks[j])
            != node by {
            lemma_trie_apart(model, task_key(tasks[j]), path);
        }
        lemma_script_frame(s, tasks, 0, node);
    }
}

/// The guard of a model changes nothing in the store.
proof fn lemma_guard_reads(s: StoreModel, m: ModelView)
    requires
        script_effect(s, guard_tasks(m), 0) is Ok,
    ensures
        script_effect(s, guard_tasks(m), 0)->Ok_0 == s,
{
    reveal_with_fuel(script_effect, 3);
}

/// Where saving an entity succeeds, the store as the save left it holds
/// the nodes of the master trie from the root down to the entity's entry,
/// each listing the next character, and the node at the entry marked.
proof fn lemma_chained_after_save(s: StoreModel, m: ModelView, e: EntityView)
    requires
        sound_model(m.name),
        script_effect(s, save_tasks(m, e), 0) is Ok,
    ensures
        chained(
            script_effect(s, save_tasks(m, e), 0)->Ok_0,
            master_trie_text(),
            trie_entry_text(m.name, e.key),
            0,
        ),
{
    let trie = master_trie_text();
    let entry = trie_entry_text(m.name, e.key);
    let guard = guard_tasks(m);
    let insert = insert_tasks(trie, entry);
    let rows = row_puts(m.name, e.key, e.fields);
    let index = enter_tasks(m.name, e.key, e.fields, e.fields.len() as int);
    lemma_script_concat(s, guard + insert + rows, index);
    lemma_script_concat(s, guard + insert, rows);
    lemma_script_concat(s, guard, insert);
    lemma_guard_reads(s, m);
    lemma_insert_links(s, trie, entry);
    let s1 = script_effect(s, insert, 0)->Ok_0;
    let s2 = script_effect(s1, rows, 0)->Ok_0;
    let s3 = script_effect(s2, index, 0)->Ok_0;
    lemma_entity_tasks_keys(m.name, e.key, e.fields, e.fields.len() as int);
    lemma_trie_untouched(s1, m.name, rows);
    lemma_trie_untouched(s2, m.name, index);
    assert forall|path: Seq<char>| #[trigger] node_at(s3, trie, path) == node_at(s1, trie, path) by {
        assert(node_at(s2, trie, path) == node_at(s1, trie, path));
    }
    assert forall|j: int| 0 <= j < entry.len() implies (#[trigger] node_at(
        s3,
        trie,
        entry.take(j),
    )) is Some && node_at(s3, trie, entry.take(j))->0.children.contains(entry[j]) by {
        assert(node_at(s1, trie, entry.take(j)) is Some);
    }
}

/// Enumeration after save: where saving an entity succeeds, the store as
/// the save left it holds the entity's entry in the master trie linked from
/// the node at the model's prefix, so that every enumeration of the model
/// that ends yields it, and the entry without the prefix is the entity's
/// key. The model's name is sound.
pub proof fn lemma_enumerated_after_save(s: StoreModel, m: ModelView, e: EntityView)
    requires
        sound_model(m.name),
        script_effect(s, save_tasks(m, e), 0) is Ok,
    ensures
        marked_below(
            script_effect(s, save_tasks(m, e), 0)->Ok_0,
            master_trie_text(),
            m.name + ":"@,
            trie_entry_text(m.name, e.key),
        ),
        stripped(trie_entry_text(m.name, e.key), m.name + ":"@) == Ok::<Seq<char>, ErrorView>(
            e.key,
        ),
{
    let trie = master_trie_text();
    let entry = trie_entry_text(m.name, e.key);
    let prefix = m.name + ":"@;
    let end = script_effect(s, save_tasks(m, e), 0)->Ok_0;
    lemma_chained_after_save(s, m, e);
    assert(entry.take(prefix.len() as int) =~= prefix);
    assert(entry.skip(prefix.len() as int) =~= e.key);
    assert(linked(end, trie, prefix, entry));
}

/// The marks of the master trie stay faithful: where they are faithful and
/// saving an entity succeeds, they are faithful in the store as the save
/// left it. The model's name is sound.
pub proof fn lemma_faithful_after_save(s: StoreModel, m: ModelView, e: EntityView)
    requires
        sound_model(m.name),
        faithful(s, master_trie_text()),
        script_effect(s, save_tasks(m, e), 0) is Ok,
    ensures
        faithful(script_effect(s, save_tasks(m, e), 0)->Ok_0, master_trie_text()),
{
    let trie = master_trie_text();
    let guard = guard_tasks(m);
    let insert = insert_tasks(trie, trie_entry_text(m.name, e.key));
    let rows = row_puts(m.name, e.key, e.fields);
    let index = enter_tasks(m.name, e.key, e.fields, e.fields.len() as int);
    lemma_script_concat(s, guard + insert + rows, index);
    lemma_script_concat(s, guard + insert, rows);
    lemma_script_concat(s, guard, insert);
    lemma_guard_reads(s, m);
    lemma_insert_keeps_faithful(s, trie, trie_entry_text(m.name, e.key), 0);
    let s1 = script_effect(s, insert, 0)->Ok_0;
    let s2 = script_effect(s1, rows, 0)->Ok_0;
    let s3 = script_effect(s2, index, 0)->Ok_0;
    lemma_entity_tasks_keys(m.name, e.key, e.fields, e.fields.len() as int);
    lemma_trie_untouched(s1, m.name, rows);
    lemma_trie_untouched(s2, m.name, index);
    assert forall|path: Seq<char>| #[trigger] node_at(s3, trie, path) == node_at(s1, trie, path) by {
        assert(node_at(s2, trie, path) == node_at(s1, trie, path));
    }
}

/// Enumeration after delete: where the marks of the master trie are
/// faithful and deleting an entity succeeds, they are faithful in the store
/// as the delete left it, and no node of the trie is marked with the
/// entity's entry, so that no enumeration yields it. The model's name is
/// sound.
pub proof fn lemma_not_enumerated_after_delete(
    s: StoreModel,
    m: ModelView,
    e: EntityView,
    prefix: Seq<char>,
)
    requires
        sound_model(m.name),
        faithful(s, master_trie_text()),
        script_effect(s, delete_tasks(m, e), 0) is Ok,
    ensures
        faithful(script_effect(s, delete_tasks(m, e), 0)->Ok_0, master_trie_text()),
        !marked_below(
            script_effect(s, delete_tasks(m, e), 0)->Ok_0,
            master_trie_text(),
            prefix,
            trie_entry_text(m.name, e.key),
        ),
{
    let trie = master_trie_text();
    let entry = trie_entry_text(m.name, e.key);
    let guard = guard_tasks(m);
    let remove = remove_tasks(trie, entry);
    let rows = row_deletes(m.name, e.key, e.fields);
    let index = leave_tasks(m.name, e.key, e.fields, e.fields.len() as int);
    lemma_script_concat(s, guard + remove + rows, index);
    lemma_script_concat(s, guard + remove, rows);
    lemma_script_concat(s, guard, remove);
    lemma_guard_reads(s, m);
    reveal_strlit(":");
    lemma_remove_keeps_faithful(s, trie, entry, 0);
    lemma_remove_clears(s, trie, entry);
    let s1 = script_effect(s, remove, 0)->Ok_0;
    let s2 = script_effect(s1, rows, 0)->Ok_0;
    let s3 = script_effect(s2, index, 0)->Ok_0;
    lemma_entity_tasks_keys(m.name, e.key, e.fields, e.fields.len() as int);
    lemma_trie_untouched(s1, m.name, rows);
    lemma_trie_untouched(s2, m.name, index);
    assert forall|path: Seq<char>| #[trigger] node_at(s3, trie, path) == node_at(s1, trie, path) by {
        assert(node_at(s2, trie, path) == node_at(s1, trie, path));
    }
    if marked_below(s3, trie, prefix, entry) {
        let path = choose|path: Seq<char>|
            linked(s3, trie, prefix, path) && (#[trigger] node_at(s3, trie, path)) is Some
                && node_at(s3, trie, path)->0.key == Some(entry);
        assert(path == entry);
    }
}

/// What saving the first `upto` entities of a list does to the store, one
/// save after another; the first save that fails ends it with its error.
pub open spec fn saved_all(s: StoreModel, m: ModelView, list: Seq<EntityView>, upto: int)
    -> Result<StoreModel, ErrorView>
    decreases upto,
{
    if upto <= 0 {
        Ok(s)
    } else {
        match saved_all(s, m, list, upto - 1) {
            Ok(mid) => script_effect(mid, save_tasks(m, list[upto - 1]), 0),
            Err(e) => Err(e),
        }
    }
}

/// The entry in the master trie of the entity at `i` of a list.
pub open spec fn entry_of(m: ModelView, list: Seq<EntityView>, i: int) -> Seq<char> {
    trie_entry_text(m.name, list[i].key)
}

/// No node of the trie is marked.
pub open spec fn bare(s: StoreModel, namespace: Seq<char>) -> bool {
    forall|path: Seq<char>|
        (#[trigger] node_at(s, namespace, path)) is Some ==> node_at(s, namespace, path)->0.key
            is None
}

/// Where the marks of the master trie are faithful and saving an entity
/// succeeds, the store as the save left it holds the trie extended by the
/// entity's entry.
proof fn lemma_save_extends(s: StoreModel, m: ModelView, e: EntityView)
    requires
        sound_model(m.name),
        faithful(s, master_trie_text()),
        script_effect(s, save_tasks(m, e), 0) is Ok,
    ensures
        extends(
            s,
            script_effect(s, save_tasks(m, e), 0)->Ok_0,
            master_trie_text(),
            trie_entry_text(m.name, e.key),
        ),
{
    let trie = master_trie_text();
    let entry = trie_entry_text(m.name, e.key);
    let guard = guard_tasks(m);
    let insert = insert_tasks(trie, entry);
    let rows = row_puts(m.name, e.key, e.fields);
    let index = enter_tasks(m.name, e.key, e.fields, e.fields.len() as int);
    lemma_script_concat(s, guard + insert + rows, index);
    lemma_script_concat(s, guard + insert, rows);
    lemma_script_concat(s, guard, insert);
    lemma_guard_reads(s, m);
    lemma_insert_grows(s, trie, entry);
    let s1 = script_effect(s, insert, 0)->Ok_0;
    let s2 = script_effect(s1, rows, 0)->Ok_0;
    let s3 = script_effect(s2, index, 0)->Ok_0;
    lemma_entity_tasks_keys(m.name, e.key, e.fields, e.fields.len() as int);
    lemma_trie_untouched(s1, m.name, rows);
    lemma_trie_untouched(s2, m.name, index);
    assert forall|path: Seq<char>| #[trigger] node_at(s3, trie, path) == node_at(s1, trie, path) by {
        assert(node_at(s2, trie, path) == node_at(s1, trie, path));
    }
    assert forall|path: Seq<char>|
        #![trigger node_at(s, trie, path)]
        #![trigger node_at(s3, trie, path)]
        {
            let old = node_at(s, trie, path);
            let new = node_at(s3, trie, path);
            &&& old is Some ==> new is Some && (old->0.key is Some ==> new->0.key == old->0.key)
                && forall|c: char| old->0.children.contains(c) ==> new->0.children.contains(c)
            &&& new is Some && new->0.key is Some ==> new->0.key == Some(entry) || (old is Some
                && old->0.key == new->0.key)
        } by {
        assert(node_at(s3, trie, path) == node_at(s1, trie, path));
    }
}

/// A key that ends at a node linked from `from` still does so in a trie
/// that extends the one it was in.
proof fn lemma_marked_stays(
    before: StoreModel,
    after: StoreModel,
    namespace: Seq<char>,
    entry: Seq<char>,
    from: Seq<char>,
    key: Seq<char>,
)
    requires
        extends(before, after, namespace, entry),
        marked_below(before, namespace, from, key),
    ensures
        marked_below(after, namespace, from, key),
{
    let path = choose|path: Seq<char>|
        linked(before, namespace, from, path) && (#[trigger] node_at(before, namespace, path))
            is Some && node_at(before, namespace, path)->0.key == Some(key);
    assert(linked(after, namespace, from, path)) by {
        assert forall|j: int| from.len() <= j < path.len() implies (#[trigger] node_at(
            after,
            namespace,
            path.take(j),
        )) is Some && node_at(after, namespace, path.take(j))->0.children.contains(path[j]) by {
            assert(node_at(before, namespace, path.take(j)) is Some);
        }
    }
}

/// After the first `upto` entities of a list were saved into a store whose
/// master trie was bare, the marks of the trie are faithful, every mark is
/// the entry of one of the entities, and the entry of each is linked from
/// the node at the model's prefix.
proof fn lemma_saved_all(s: StoreModel, m: ModelView, list: Seq<EntityView>, upto: int)
    requires
        sound_model(m.name),
        bare(s, master_trie_text()),
        0 <= upto <= list.len(),
        saved_all(s, m, list, upto) is Ok,
    ensures
        faithful(saved_all(s, m, list, upto)->Ok_0, master_trie_text()),
        forall|path: Seq<char>|
            (#[trigger] node_at(saved_all(s, m, list, upto)->Ok_0, master_trie_text(), path))
                is Some && node_at(
                saved_all(s, m, list, upto)->Ok_0,
                master_trie_text(),
                path,
            )->0.key is Some ==> exists|i: int|
                0 <= i < upto && node_at(
                    saved_all(s, m, list, upto)->Ok_0,
                    master_trie_text(),
                    path,
                )->0.key == Some(#[trigger] entry_of(m, list, i)),
        forall|i: int|
            0 <= i < upto ==> marked_below(
                saved_all(s, m, list, upto)->Ok_0,
                master_trie_text(),
                m.name + ":"@,
                #[trigger] entry_of(m, list, i),
            ),
    decreases upto,
{
    let trie = master_trie_text();
    if upto > 0 {
        lemma_saved_all(s, m, list, upto - 1);
        let mid = saved_all(s, m, list, upto - 1)->Ok_0;
        let e = list[upto - 1];
        let end = saved_all(s, m, list, upto)->Ok_0;
        lemma_faithful_after_save(mid, m, e);
        lemma_save_extends(mid, m, e);
        lemma_enumerated_after_save(mid, m, e);
        assert forall|path: Seq<char>|
            (#[trigger] node_at(end, trie, path)) is Some && node_at(end, trie, path)->0.key
                is Some implies exists|i: int|
            0 <= i < upto && node_at(end, trie, path)->0.key == Some(
                #[trigger] entry_of(m, list, i),
            ) by {
            let old = node_at(mid, trie, path);
            if node_at(end, trie, path)->0.key != Some(entry_of(m, list, upto - 1)) {
                assert(old is Some && old->0.key == node_at(end, trie, path)->0.key);
                let i = choose|i: int|
                    0 <= i < upto - 1 && old->0.key == Some(#[trigger] entry_of(m, list, i));
                assert(0 <= i < upto);
            }
        }
        assert forall|i: int| 0 <= i < upto implies marked_below(
            end,
            trie,
            m.name + ":"@,
            #[trigger] entry_of(m, list, i),
        ) by {
            if i < upto - 1 {
                lemma_marked_stays(
                    mid,
                    end,
                    trie,
                    trie_entry_text(m.name, e.key),
                    m.name + ":"@,
                    entry_of(m, list, i),
                );
            }
        }
    }
}

/// Enumeration completeness: after the entities of a list were saved, one
/// after another, into a store whose master trie was bare, a key ends at a
/// node linked from the node at the model's prefix if and only if it is the
/// entry of one of them. So every enumeration of the model that ends
/// yields exactly their entries, whatever order it takes. The model's name
/// is sound.
pub proof fn lemma_enumeration_exact(
    s: StoreModel,
    m: ModelView,
    list: Seq<EntityView>,
    key: Seq<char>,
)
    requires
        sound_model(m.name),
        bare(s, master_trie_text()),
        saved_all(s, m, list, list.len() as int) is Ok,
    ensures
        marked_below(
            saved_all(s, m, list, list.len() as int)->Ok_0,
            master_trie_text(),
            m.name + ":"@,
            key,
        ) <==> exists|i: int| 0 <= i < list.len() && key == #[trigger] entry_of(m, list, i),
{
    let trie = master_trie_text();
    let end = saved_all(s, m, list, list.len() as int)->Ok_0;
    lemma_saved_all(s, m, list, list.len() as int);
    if marked_below(end, trie, m.name + ":"@, key) {
        let path = choose|path: Seq<char>|
            linked(end, trie, m.name + ":"@, path) && (#[trigger] node_at(end, trie, path)) is Some
                && node_at(end, trie, path)->0.key == Some(key);
        let i = choose|i: int|
            0 <= i < list.len() && node_at(end, trie, path)->0.key == Some(
                #[trigger] entry_of(m, list, i),
            );
        assert(key == entry_of(m, list, i));
    }
}

/// The multi index entry under `text` holds in `after` the keys that it
/// held in `before`, but for `key`, which may have joined or left.
pub open spec fn others_kept(
    before: StoreModel,
    after: StoreModel,
    text: Seq<char>,
    key: Seq<char>,
) -> bool {
    let old = multi_in(read(before, text, Kind::Keys));
    let new = multi_in(read(after, text, Kind::Keys));
    old is Ok ==> new is Ok && forall|x: Seq<char>|
        x != key ==> (new->Ok_0.contains(x) <==> old->Ok_0.contains(x))
}

/// One index task of the entity `key` keeps the other keys of every multi
/// index entry of the model.
proof fn lemma_index_task_keeps_others(
    s: StoreModel,
    model: Seq<char>,
    key: Seq<char>,
    f: FieldView,
    field: Seq<char>,
    value: Seq<char>,
    entering: bool,
)
    requires
        script_effect(
            s,
            if entering {
                enter_one(model, key, f)
            } else {
                leave_one(model, key, f)
            },
            0,
        ) is Ok,
    ensures
        others_kept(
            s,
            script_effect(
                s,
                if entering {
                    enter_one(model, key, f)
                } else {
                    leave_one(model, key, f)
                },
                0,
            )->Ok_0,
            multi_index_text(model, field, value),
            key,
        ),
{
    reveal_with_fuel(script_effect, 3);
    lemma_index_heads(model, f.name, f.json);
    lemma_index_heads(model, field, value);
    let own = multi_index_text(model, f.name, f.json);
    let held = crate::script::keys_in(read(s, own, Kind::Keys));
    match f.index {
        IndexKind::Multi => {
            if entering {
                let ks = match held {
                    Ok(Some(ks)) => ks,
                    _ => Seq::empty(),
                };
                lemma_enlisted_holds(ks, key);
                assert forall|x: Seq<char>|
                    x != key && crate::index::enlisted(ks, key).contains(x) implies ks.contains(
                    x,
                ) by {
                    if !ks.contains(key) {
                        let j = choose|j: int|
                            0 <= j < ks.len() + 1 && crate::index::enlisted(ks, key)[j] == x;
                        assert(ks[j] == x);
                    }
                }
            } else {
                match held {
                    Ok(Some(ks)) => lemma_retracted_lacks(ks, key),
                    _ => {},
                }
            }
        },
        IndexKind::Unique => {
            let other = unique_index_text(model, f.name, f.json);
            if entering {
                assert(enter_one(model, key, f)[0] == TaskView::Put {
                    key: other,
                    value: PayloadView::Key(key),
                });
            } else {
                assert(leave_one(model, key, f)[0] == TaskView::Delete { key: other });
            }
        },
        IndexKind::Plain => {},
    }
}

/// The index tasks of the first `upto` fields of the entity `key` keep the
/// other keys of every multi index entry of the model.
proof fn lemma_index_tasks_keep_others(
    s: StoreModel,
    model: Seq<char>,
    key: Seq<char>,
    fields: Seq<FieldView>,
    upto: int,
    field: Seq<char>,
    value: Seq<char>,
    entering: bool,
)
    requires
        0 <= upto <= fields.len(),
        script_effect(
            s,
            if entering {
                enter_tasks(model, key, fields, upto)
            } else {
                leave_tasks(model, key, fields, upto)
            },
            0,
        ) is Ok,
    ensures
        others_kept(
            s,
            script_effect(
                s,
                if entering {
                    enter_tasks(model, key, fields, upto)
                } else {
                    leave_tasks(model, key, fields, upto)
                },
                0,
            )->Ok_0,
            multi_index_text(model, field, value),
            key,
        ),
    decreases upto,
{
    if upto > 0 {
        let f = fields[upto - 1];
        if entering {
            let before = enter_tasks(model, key, fields, upto - 1);
            lemma_script_concat(s, before, enter_one(model, key, f));
            lemma_index_tasks_keep_others(s, model, key, fields, upto - 1, field, value, true);
            lemma_index_task_keeps_others(
                script_effect(s, before, 0)->Ok_0,
                model,
                key,
                f,
                field,
                value,
                true,
            );
        } else {
            let before = leave_tasks(model, key, fields, upto - 1);
            lemma_script_concat(s, before, leave_one(model, key, f));
            lemma_index_tasks_keep_others(s, model, key, fields, upto - 1, field, value, false);
            lemma_index_task_keeps_others(
                script_effect(s, before, 0)->Ok_0,
                model,
                key,
                f,
                field,
                value,
                false,
            );
        }
    }
}

/// The tasks of the master trie and the row tasks of an entity leave every
/// index entry of its model as it was.
proof fn lemma_index_untouched(
    s: StoreModel,
    m: ModelView,
    e: EntityView,
    text: Seq<char>,
    saving: bool,
)
    requires
        sound_model(m.name),
        sound_key(e.key),
        model_key(m.name, text),
        index_key(m.name, text),
        script_effect(
            s,
            if saving {
                guard_tasks(m) + insert_tasks(master_trie_text(), trie_entry_text(m.name, e.key))
                    + row_puts(m.name, e.key, e.fields)
            } else {
                guard_tasks(m) + remove_tasks(master_trie_text(), trie_entry_text(m.name, e.key))
                    + row_deletes(m.name, e.key, e.fields)
            },
            0,
        ) is Ok,
    ensures
        same_at(
            script_effect(
                s,
                if saving {
                    guard_tasks(m) + insert_tasks(
                        master_trie_text(),
                        trie_entry_text(m.name, e.key),
                    ) + row_puts(m.name, e.key, e.fields)
                } else {
                    guard_tasks(m) + remove_tasks(
                        master_trie_text(),
                        trie_entry_text(m.name, e.key),
                    ) + row_deletes(m.name, e.key, e.fields)
                },
                0,
            )->Ok_0,
            s,
            text,
        ),
{
    let trie = master_trie_text();
    let entry = trie_entry_text(m.name, e.key);
    let guard = guard_tasks(m);
    let walk = if saving {
        insert_tasks(trie, entry)
    } else {
        remove_tasks(trie, entry)
    };
    let rows = if saving {
        row_puts(m.name, e.key, e.fields)
    } else {
        row_deletes(m.name, e.key, e.fields)
    };
    lemma_script_concat(s, guard + walk, rows);
    lemma_script_concat(s, guard, walk);
    lemma_guard_reads(s, m);
    assert(entry.take(entry.len() as int) =~= entry);
    assert forall|j: int| 0 <= j < walk.len() implies task_key(#[trigger] walk[j]) != text by {
        if saving {
            lemma_trie_apart(m.name, text, entry.take(j));
        } else {
            lemma_trie_apart(m.name, text, entry.take(j + 1));
        }
    }
    assert forall|j: int| 0 <= j < rows.len() implies task_key(#[trigger] rows[j]) != text by {
        lemma_row_head(m.name, e.key, e.fields[j].name);
    }
    lemma_script_frame(s, walk, 0, text);
    lemma_script_frame(script_effect(s, walk, 0)->Ok_0, rows, 0, text);
}

/// Others stay on save: where saving an entity succeeds, every multi index
/// entry of its model holds afterwards the keys that it held before, but
/// for the key of the entity. The model's name and the entity's key are
/// sound.
pub proof fn lemma_save_keeps_others(
    s: StoreModel,
    m: ModelView,
    e: EntityView,
    field: Seq<char>,
    value: Seq<char>,
)
    requires
        sound_model(m.name),
        sound_key(e.key),
        script_effect(s, save_tasks(m, e), 0) is Ok,
    ensures
        others_kept(
            s,
            script_effect(s, save_tasks(m, e), 0)->Ok_0,
            multi_index_text(m.name, field, value),
            e.key,
        ),
{
    let head = guard_tasks(m) + insert_tasks(master_trie_text(), trie_entry_text(m.name, e.key))
        + row_puts(m.name, e.key, e.fields);
    let index = enter_tasks(m.name, e.key, e.fields, e.fields.len() as int);
    let text = multi_index_text(m.name, field, value);
    lemma_script_concat(s, head, index);
    lemma_model_keys(m.name, field, value);
    lemma_index_heads(m.name, field, value);
    lemma_index_untouched(s, m, e, text, true);
    lemma_index_tasks_keep_others(
        script_effect(s, head, 0)->Ok_0,
        m.name,
        e.key,
        e.fields,
        e.fields.len() as int,
        field,
        value,
        true,
    );
}

/// Others stay on delete: where deleting an entity succeeds, every multi
/// index entry of its model holds afterwards the keys that it held before,
/// but for the key of the entity. The model's name and the entity's key
/// are sound.
pub proof fn lemma_delete_keeps_others(
    s: StoreModel,
    m: ModelView,
    e: EntityView,
    field: Seq<char>,
    value: Seq<char>,
)
    requires
        sound_model(m.name),
        sound_key(e.key),
        script_effect(s, delete_tasks(m, e), 0) is Ok,
    ensures
        others_kept(
            s,
            script_effect(s, delete_tasks(m, e), 0)->Ok_0,
            multi_index_text(m.name, field, value),
            e.key,
        ),
{
    let head = guard_tasks(m) + remove_tasks(master_trie_text(), trie_entry_text(m.name, e.key))
        + row_deletes(m.name, e.key, e.fields);
    let index = leave_tasks(m.name, e.key, e.fields, e.fields.len() as int);
    let text = multi_index_text(m.name, field, value);
    lemma_script_concat(s, head, index);
    lemma_model_keys(m.name, field, value);
    lemma_index_heads(m.name, field, value);
    lemma_index_untouched(s, m, e, text, false);
    lemma_index_tasks_keep_others(
        script_effect(s, head, 0)->Ok_0,
        m.name,
        e.key,
        e.fields,
        e.fields.len() as int,
        field,
        value,
        false,
    );
}

/// Found by a unique field: where saving an entity succeeds, the unique
/// index entry of the value of each unique-indexed field leads to the
/// entity's key, and a load of that key gives the entity's fields. The
/// entity's key is sound and its fields have distinct names.
pub proof fn lemma_found_after_save(s: StoreModel, m: ModelView, e: EntityView, i: int)
    requires
        sound_key(e.key),
        distinct_names(e.fields),
        0 <= i < e.fields.len(),
        e.fields[i].index == IndexKind::Unique,
        script_effect(s, save_tasks(m, e), 0) is Ok,
    ensures
        unique_in(
            read(
                script_effect(s, save_tasks(m, e), 0)->Ok_0,
                unique_index_text(m.name, e.fields[i].name, e.fields[i].json),
                Kind::Key,
            ),
        ) == Ok::<Option<Seq<char>>, ErrorView>(Some(e.key)),
        load(script_effect(s, save_tasks(m, e), 0)->Ok_0, m.name, e.key, field_names(e.fields))
            == Ok::<Seq<Seq<u8>>, ErrorView>(field_values(e.fields)),
{
    lemma_indexed_after_save(s, m, e, i);
    lemma_load_after_save(s, m, e);
}

/// The strict guard: in strict mode, where the ledger of a model shows
/// that it may not be written, saving an entity, deleting it and giving
/// one of its fields a new value all fail with `MigrationOrderError`
/// before anything is written.
pub proof fn lemma_strict_guard(
    s: StoreModel,
    m: ModelView,
    e: EntityView,
    i: int,
    encoded: Seq<u8>,
    json: Seq<char>,
)
    requires
        m.strict,
        ledger_in(read(s, ledger_text(m.name), Kind::Bytes)) is Ok,
        !may_mutate(
            ledger_in(read(s, ledger_text(m.name), Kind::Bytes))->Ok_0,
            m.name,
            m.predecessor,
        ),
    ensures
        script_effect(s, save_tasks(m, e), 0) == Err::<StoreModel, ErrorView>(
            ErrorView::MigrationOrderError,
        ),
        script_effect(s, delete_tasks(m, e), 0) == Err::<StoreModel, ErrorView>(
            ErrorView::MigrationOrderError,
        ),
        script_effect(s, set_tasks(m, e, i, encoded, json), 0) == Err::<StoreModel, ErrorView>(
            ErrorView::MigrationOrderError,
        ),
{
    let guard = guard_tasks(m);
    assert(save_tasks(m, e)[0] == guard[0]);
    assert(delete_tasks(m, e)[0] == guard[0]);
    assert(set_tasks(m, e, i, encoded, json)[0] == guard[0]);
}

/// A script none of whose tasks changes the store leaves it as it was.
proof fn lemma_script_still(s: StoreModel, tasks: Seq<TaskView>, pos: int)
    requires
        0 <= pos <= tasks.len(),
        forall|j: int|
            pos <= j < tasks.len() ==> task_effect(s, #[trigger] tasks[j]) == Ok::<
                StoreModel,
                ErrorView,
            >(s),
    ensures
        script_effect(s, tasks, pos) == Ok::<StoreModel, ErrorView>(s),
    decreases tasks.len() - pos,
{
    if pos < tasks.len() {
        lemma_script_still(s, tasks, pos + 1);
    }
}

/// Where an entity is entered in the index of each of its first `upto`
/// fields, the index tasks of those fields change nothing.
proof fn lemma_enter_still(
    s: StoreModel,
    model: Seq<char>,
    key: Seq<char>,
    fields: Seq<FieldView>,
    upto: int,
)
    requires
        0 <= upto <= fields.len(),
        forall|i: int| 0 <= i < upto ==> indexed(s, model, key, #[trigger] fields[i]),
    ensures
        forall|j: int|
            0 <= j < enter_tasks(model, key, fields, upto).len() ==> task_effect(
                s,
                #[trigger] enter_tasks(model, key, fields, upto)[j],
            ) == Ok::<StoreModel, ErrorView>(s),
    decreases upto,
{
    if upto > 0 {
        lemma_enter_still(s, model, key, fields, upto - 1);
        let f = fields[upto - 1];
        let before = enter_tasks(model, key, fields, upto - 1);
        let all = enter_tasks(model, key, fields, upto);
        assert(indexed(s, model, key, f));
        assert forall|j: int| 0 <= j < all.len() implies task_effect(s, #[trigger] all[j]) == Ok::<
            StoreModel,
            ErrorView,
        >(s) by {
            if j < before.len() {
                assert(all[j] == before[j]);
            } else {
                assert(all[j] == enter_one(model, key, f)[j - before.len()]);
                match f.index {
                    IndexKind::Unique => {
                        let own = unique_index_text(model, f.name, f.json);
                        assert(s.insert(own, PayloadView::Key(key)) =~= s);
                    },
                    IndexKind::Multi => {
                        let own = multi_index_text(model, f.name, f.json);
                        let held = multi_in(read(s, own, Kind::Keys))->Ok_0;
                        assert(s.insert(own, PayloadView::Keys(held)) =~= s);
                    },
                    IndexKind::Plain => {},
                }
            }
        }
    }
}

/// Save is idempotent by key: where saving an entity succeeds, saving it
/// once more into the store as the first save left it succeeds and changes
/// nothing. The model's name and the entity's key are sound, and its
/// fields have distinct names.
pub proof fn lemma_save_idempotent(s: StoreModel, m: ModelView, e: EntityView)
    requires
        sound_model(m.name),
        sound_key(e.key),
        distinct_names(e.fields),
        script_effect(s, save_tasks(m, e), 0) is Ok,
    ensures
        script_effect(script_effect(s, save_tasks(m, e), 0)->Ok_0, save_tasks(m, e), 0)
            == script_effect(s, save_tasks(m, e), 0),
{
    let trie = master_trie_text();
    let entry = trie_entry_text(m.name, e.key);
    let guard = guard_tasks(m);
    let insert = insert_tasks(trie, entry);
    let rows = row_puts(m.name, e.key, e.fields);
    let index = enter_tasks(m.name, e.key, e.fields, e.fields.len() as int);
    let end = script_effect(s, save_tasks(m, e), 0)->Ok_0;
    lemma_chained_after_save(s, m, e);
    lemma_rows_after_save(s, m, e);
    assert forall|i: int| 0 <= i < e.fields.len() implies indexed(
        end,
        m.name,
        e.key,
        #[trigger] e.fields[i],
    ) by {
        lemma_indexed_after_save(s, m, e, i);
    }
    lemma_enter_still(end, m.name, e.key, e.fields, e.fields.len() as int);
    assert forall|j: int| 0 <= j < rows.len() implies task_effect(end, #[trigger] rows[j]) == Ok::<
        StoreModel,
        ErrorView,
    >(end) by {
        let own = field_row_text(m.name, e.key, e.fields[j].name);
        assert(end.dom().contains(own));
        assert(end.insert(own, PayloadView::Bytes(e.fields[j].encoded)) =~= end);
    }
    assert(entry.take(entry.len() as int) =~= entry);
    assert forall|j: int| 0 <= j < insert.len() implies task_effect(end, #[trigger] insert[j])
        == Ok::<StoreModel, ErrorView>(end) by {
        assert(insert[j] == insert_task(trie, entry, j));
        let node = node_at(end, trie, entry.take(j));
        assert(node is Some);
        let own = crate::keys::node_text(trie, entry.take(j));
        assert(end.insert(own, PayloadView::Node(node->0)) =~= end);
    }
    assert forall|j: int| 0 <= j < guard.len() implies task_effect(end, #[trigger] guard[j]) == Ok::<
        StoreModel,
        ErrorView,
    >(end) by {
        lemma_script_concat(s, guard + insert + rows, index);
        lemma_script_concat(s, guard + insert, rows);
        lemma_script_concat(s, guard, insert);
        lemma_guard_reads(s, m);
        let ledger = ledger_text(m.name);
        lemma_entity_tasks_keys(m.name, e.key, e.fields, e.fields.len() as int);
        assert forall|k: int| 0 <= k < insert.len() implies task_key(#[trigger] insert[k])
            != ledger by {
            assert(insert[k] == insert_task(trie, entry, k));
            lemma_model_keys(m.name, e.key, e.key);
            lemma_ledger_apart(
                m.name,
                m.name,
                field_row_text(m.name, e.key, e.key),
                entry.take(k),
            );
        }
        assert forall|k: int| 0 <= k < rows.len() implies task_key(#[trigger] rows[k])
            != ledger by {
            lemma_ledger_apart(m.name, m.name, task_key(rows[k]), Seq::empty());
        }
        assert forall|k: int| 0 <= k < index.len() implies task_key(#[trigger] index[k])
            != ledger by {
            lemma_ledger_apart(m.name, m.name, task_key(index[k]), Seq::empty());
        }
        let s1 = script_effect(s, insert, 0)->Ok_0;
        let s2 = script_effect(s1, rows, 0)->Ok_0;
        lemma_script_frame(s, insert, 0, ledger);
        lemma_script_frame(s1, rows, 0, ledger);
        lemma_script_frame(s2, index, 0, ledger);
        reveal_with_fuel(script_effect, 3);
    }
    lemma_script_still(end, guard, 0);
    lemma_script_still(end, insert, 0);
    lemma_script_still(end, rows, 0);
    lemma_script_still(end, index, 0);
    lemma_script_concat(end, guard + insert + rows, index);
    lemma_script_concat(end, guard + insert, rows);
    lemma_script_concat(end, guard, insert);
}

} // verus!
