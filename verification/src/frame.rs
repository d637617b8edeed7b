//! What a script leaves alone: each task writes under one key only, and the
//! key formats keep field rows and index entries apart.

use vstd::prelude::*;
use crate::cursor::{script_effect, task_effect};
use crate::keys::{
    field_row_text, ledger_text, master_trie_text, multi_index_text, node_text,
    unique_index_text,
};
use crate::script::TaskView;
use crate::store::StoreModel;

verus! {

/// The one key under which a task may write or delete.
pub open spec fn task_key(task: TaskView) -> Seq<char> {
    match task {
        TaskView::Put { key, .. } => key,
        TaskView::Delete { key } => key,
        TaskView::Link { key, .. } => key,
        TaskView::Mark { key, .. } => key,
        TaskView::Unmark { key } => key,
        TaskView::Prune { key, .. } => key,
        TaskView::Enlist { key, .. } => key,
        TaskView::Retract { key, .. } => key,
        TaskView::Guard { key, .. } => key,
    }
}

/// Two stores hold the same under `key`.
pub open spec fn same_at(a: StoreModel, b: StoreModel, key: Seq<char>) -> bool {
    a.dom().contains(key) == b.dom().contains(key) && (a.dom().contains(key) ==> a[key] == b[key])
}

/// A task changes nothing under any key but its own.
pub proof fn lemma_task_frame(s: StoreModel, task: TaskView, key: Seq<char>)
    requires
        task_effect(s, task) is Ok,
        key != task_key(task),
    ensures
        same_at(task_effect(s, task)->Ok_0, s, key),
{
}

/// A script changes nothing under a key that none of its tasks has.
pub proof fn lemma_script_frame(s: StoreModel, tasks: Seq<TaskView>, pos: int, key: Seq<char>)
    requires
        0 <= pos <= tasks.len(),
        script_effect(s, tasks, pos) is Ok,
        forall|j: int| pos <= j < tasks.len() ==> task_key(#[trigger] tasks[j]) != key,
    ensures
        same_at(script_effect(s, tasks, pos)->Ok_0, s, key),
    decreases tasks.len() - pos,
{
    if pos < tasks.len() {
        lemma_task_frame(s, tasks[pos], key);
        lemma_script_frame(task_effect(s, tasks[pos])->Ok_0, tasks, pos + 1, key);
    }
}

/// What the tasks of `a + b` do from `pos` on, `pos` lying in `a`: the rest
/// of `a`, then all of `b`.
proof fn lemma_script_concat_from(s: StoreModel, a: Seq<TaskView>, b: Seq<TaskView>, pos: int)
    requires
        0 <= pos <= a.len(),
    ensures
        script_effect(s, a + b, pos) == match script_effect(s, a, pos) {
            Ok(mid) => script_effect(mid, b, 0),
            Err(e) => Err(e),
        },
    decreases a.len() - pos,
{
    if pos < a.len() {
        match task_effect(s, a[pos]) {
            Ok(next) => lemma_script_concat_from(next, a, b, pos + 1),
            Err(_) => {},
        }
    } else {
        lemma_script_shift(s, a, b, 0);
    }
}

/// The tasks of `b` do the same at the end of `a + b` as alone.
proof fn lemma_script_shift(s: StoreModel, a: Seq<TaskView>, b: Seq<TaskView>, pos: int)
    requires
        0 <= pos <= b.len(),
    ensures
        script_effect(s, a + b, a.len() + pos) == script_effect(s, b, pos),
    decreases b.len() - pos,
{
    if pos < b.len() {
        match task_effect(s, b[pos]) {
            Ok(next) => lemma_script_shift(next, a, b, pos + 1),
            Err(_) => {},
        }
    }
}

/// A script made of two parts does what the first part does and then what
/// the second does; it fails where the first of them fails.
pub proof fn lemma_script_concat(s: StoreModel, a: Seq<TaskView>, b: Seq<TaskView>)
    ensures
        script_effect(s, a + b, 0) == match script_effect(s, a, 0) {
            Ok(mid) => script_effect(mid, b, 0),
            Err(e) => Err(e),
        },
{
    lemma_script_concat_from(s, a, b, 0);
}

/// A serialized entity key is sound when it is not empty and begins with
/// neither `i` nor `u`, as no JSON text does.
pub open spec fn sound_key(key: Seq<char>) -> bool {
    key.len() > 0 && key[0] != 'i' && key[0] != 'u'
}

/// The character at which the key formats of a model part ways: the one
/// after `ergokv:`, the model's name and a colon.
pub open spec fn head_of(model: Seq<char>, text: Seq<char>) -> Option<char> {
    if text.len() > model.len() + 8 {
        Some(text[(model.len() + 8) as int])
    } else {
        None
    }
}

/// A field row goes on with the entity key where the formats part ways.
pub proof fn lemma_row_head(model: Seq<char>, key: Seq<char>, field: Seq<char>)
    requires
        key.len() > 0,
    ensures
        head_of(model, field_row_text(model, key, field)) == Some(key[0]),
{
    reveal_strlit("ergokv:");
    reveal_strlit(":");
}

/// A unique index entry goes on with `u` where the formats part ways, a
/// multi index entry with `i`.
pub proof fn lemma_index_heads(model: Seq<char>, field: Seq<char>, value: Seq<char>)
    ensures
        head_of(model, unique_index_text(model, field, value)) == Some('u'),
        head_of(model, multi_index_text(model, field, value)) == Some('i'),
{
    reveal_strlit("ergokv:");
    reveal_strlit(":");
    reveal_strlit(":unique_index:");
    reveal_strlit(":index:");
}

/// The rows of two fields of one entity lie under different keys where the
/// fields have different names.
pub proof fn lemma_rows_apart(model: Seq<char>, key: Seq<char>, a: Seq<char>, b: Seq<char>)
    requires
        a != b,
    ensures
        field_row_text(model, key, a) != field_row_text(model, key, b),
{
    let head = "ergokv:"@ + model + ":"@ + key + ":"@;
    if field_row_text(model, key, a) == field_row_text(model, key, b) {
        assert((head + a).skip(head.len() as int) =~= a);
        assert((head + b).skip(head.len() as int) =~= b);
    }
}

/// A model's name is sound when it holds no colon and is not the name under
/// which the master trie keeps its nodes.
pub open spec fn sound_model(name: Seq<char>) -> bool {
    !name.contains(':') && name != "__trie"@
}

/// Whether `text` has the head of a row of `model`: `ergokv:`, the model's
/// name and a colon.
pub open spec fn model_key(model: Seq<char>, text: Seq<char>) -> bool {
    &&& text.len() > model.len() + 7
    &&& text.subrange(0, 7) == "ergokv:"@
    &&& text.subrange(7, model.len() as int + 7) == model
    &&& text[model.len() as int + 7] == ':'
}

/// Field rows and index entries of a model have the head of its rows.
pub proof fn lemma_model_keys(model: Seq<char>, a: Seq<char>, b: Seq<char>)
    ensures
        model_key(model, field_row_text(model, a, b)),
        model_key(model, unique_index_text(model, a, b)),
        model_key(model, multi_index_text(model, a, b)),
{
    reveal_strlit("ergokv:");
    reveal_strlit(":");
    reveal_strlit(":unique_index:");
    reveal_strlit(":index:");
    let row = field_row_text(model, a, b);
    let unique = unique_index_text(model, a, b);
    let multi = multi_index_text(model, a, b);
    assert(row.subrange(0, 7) =~= "ergokv:"@);
    assert(unique.subrange(0, 7) =~= "ergokv:"@);
    assert(multi.subrange(0, 7) =~= "ergokv:"@);
    assert(row.subrange(7, model.len() as int + 7) =~= model);
    assert(unique.subrange(7, model.len() as int + 7) =~= model);
    assert(multi.subrange(7, model.len() as int + 7) =~= model);
}

/// No node of the master trie lies under a key with the head of the rows
/// of a model whose name is sound.
pub proof fn lemma_trie_apart(model: Seq<char>, text: Seq<char>, path: Seq<char>)
    requires
        sound_model(model),
        model_key(model, text),
    ensures
        text != node_text(master_trie_text(), path),
{
    reveal_strlit("ergokv:");
    reveal_strlit("ergokv:__trie");
    reveal_strlit(":trie:node:");
    reveal_strlit("__trie");
    let node = node_text(master_trie_text(), path);
    if text == node {
        if model.len() < 6 {
            assert(node[model.len() as int + 7] != ':');
        } else if model.len() > 6 {
            assert(text.subrange(7, model.len() as int + 7)[6] == ':');
        } else {
            assert(node.subrange(7, 13) =~= "__trie"@);
        }
    }
}

/// The ledger of a model whose name is sound lies under no key of the
/// master trie and under no key with the head of the rows of a model.
pub proof fn lemma_ledger_apart(model: Seq<char>, other: Seq<char>, text: Seq<char>, path: Seq<char>)
    requires
        sound_model(model),
        model_key(other, text),
    ensures
        ledger_text(model) != text,
        ledger_text(model) != node_text(master_trie_text(), path),
{
    reveal_strlit("ergokv:");
    reveal_strlit("ergokv:__trie");
    reveal_strlit(":trie:node:");
    reveal_strlit(":__migrations");
    let ledger = ledger_text(model);
    let node = node_text(master_trie_text(), path);
    assert(node.subrange(0, 7) =~= "ergokv:"@);
    assert(node[9] == 't');
    if ledger == text || ledger == node {
        assert(ledger.subrange(0, 7) == "ergokv:"@);
        assert(ledger.subrange(0, 7)[6] == ':');
        if model.len() > 6 {
            assert(model[6] == ':');
        } else if model.len() < 6 {
            assert(ledger[model.len() as int] == ':');
            assert(ledger.subrange(0, 7)[model.len() as int] == ':');
        } else {
            assert(ledger[7] == '_');
            assert(ledger[9] == 'm');
            assert(ledger.subrange(0, 7)[0] == 'e');
            if ledger == text {
                if other.len() > 0 {
                    assert(text.subrange(7, other.len() as int + 7)[0] == text[7]);
                    assert(model[0] == 'e');
                }
            }
        }
    }
}

} // verus!
