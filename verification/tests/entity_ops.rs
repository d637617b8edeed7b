use std::collections::HashMap;

use ergokv::cursor::{Progress, WriteCursor};
use ergokv::entity::{Entity, Field, IndexKind, Model};
use ergokv::index::{enlist, holds, retract};
use ergokv::keys::{
    backup_file_name, field_row_key, ledger_key, master_trie, migration_name, multi_index_key,
    trie_entry, unique_index_key,
};
use ergokv::load::{multi_hits, multi_request, unique_hit, unique_request, LoadStep, Loader};
use ergokv::migration::{
    check_mutation, has_prefix, ledger_request, plan_migration, seal_migration, Migration,
    MigrationAction, MigrationEvent, MigrationPhase, MigrationPlan,
};
use ergokv::script::Task;
use ergokv::store::{Kind, Payload, Reply, Request, StoreError};
use ergokv::ModelStream;

type Rows = HashMap<String, Payload>;

fn kind_of(value: &Payload) -> Kind {
    match value {
        Payload::Bytes(_) => Kind::Bytes,
        Payload::Node(_) => Kind::Node,
        Payload::Key(_) => Kind::Key,
        Payload::Keys(_) => Kind::Keys,
    }
}

fn answer(rows: &mut Rows, request: Request) -> Reply {
    match request {
        Request::Get { key, kind } => match rows.get(&key) {
            None => Reply::Missing,
            Some(value) if kind_of(value) == kind => Reply::Found(value.clone()),
            Some(_) => Reply::Undecodable,
        },
        Request::Put { key, value } => {
            rows.insert(key, value);
            Reply::Done
        }
        Request::Delete { key } => {
            rows.remove(&key);
            Reply::Done
        }
    }
}

fn run(rows: &mut Rows, start: (WriteCursor, Progress)) -> Result<(), StoreError> {
    let (mut cursor, mut progress) = start;
    loop {
        match progress {
            Progress::Ask(request) => {
                let reply = answer(rows, request);
                progress = cursor.resume(reply);
            }
            Progress::Finished => return Ok(()),
            Progress::Failed(e) => return Err(e),
        }
    }
}

fn cbor(text: &str) -> Vec<u8> {
    let mut bytes = Vec::new();
    ciborium::ser::into_writer(text, &mut bytes).unwrap();
    bytes
}

fn json(text: &str) -> String {
    serde_json::to_string(text).unwrap()
}

fn field(name: &str, index: IndexKind, value: &str) -> Field {
    Field { name: name.to_string(), index, encoded: cbor(value), json: json(value) }
}

fn user_model() -> Model {
    Model { name: "User".to_string(), predecessor: None, strict: false }
}

fn user(id: &str, username: &str, email: &str, department: &str) -> Entity {
    Entity {
        key: json(id),
        fields: vec![
            field("id", IndexKind::Plain, id),
            field("username", IndexKind::Unique, username),
            field("email", IndexKind::Multi, email),
            field("department", IndexKind::Multi, department),
        ],
    }
}

fn names() -> Vec<String> {
    vec!["id".to_string(), "username".to_string(), "email".to_string(), "department".to_string()]
}

fn load(rows: &mut Rows, model: &Model, key: &str) -> Result<Vec<Vec<u8>>, StoreError> {
    let (mut loader, mut step) = Loader::begin(&model.name, key, names());
    loop {
        match step {
            LoadStep::Ask(request) => {
                let reply = answer(rows, request);
                step = loader.resume(reply);
            }
            LoadStep::Done(found) => return Ok(found),
            LoadStep::Failed(e) => return Err(e),
        }
    }
}

fn encoded(entity: &Entity) -> Vec<Vec<u8>> {
    entity.fields.iter().map(|f| f.encoded.clone()).collect()
}

fn by_unique(
    rows: &mut Rows,
    model: &Model,
    field: &str,
    value: &str,
) -> Result<Option<Vec<Vec<u8>>>, StoreError> {
    let reply = answer(rows, unique_request(&model.name, field, &json(value)));
    match unique_hit(reply)? {
        Some(key) => load(rows, model, &key).map(Some),
        None => Ok(None),
    }
}

fn by_multi(
    rows: &mut Rows,
    model: &Model,
    field: &str,
    value: &str,
) -> Result<Vec<Vec<Vec<u8>>>, StoreError> {
    let reply = answer(rows, multi_request(&model.name, field, &json(value)));
    let mut found = Vec::new();
    for key in multi_hits(reply)? {
        found.push(load(rows, model, &key)?);
    }
    Ok(found)
}

fn enumerate(rows: &mut Rows, model: &Model) -> Vec<Vec<Vec<u8>>> {
    let mut stream = ModelStream::new(format!("{}:", model.name));
    let mut found = Vec::new();
    while let Some(request) = stream.poll() {
        let reply = answer(rows, request);
        if let Some(key) = stream.absorb(reply).unwrap() {
            found.push(load(rows, model, &key).unwrap());
        }
    }
    found.sort();
    found
}

#[test]
fn test_user_store() {
    let mut rows = Rows::new();
    let model = user_model();
    let id = "6f0e3c2a-0b7e-4d0b-9c55-2f1f3a1f8a11";
    let entity = user(id, "testuser", "test@example.com", "Engineering");

    run(&mut rows, model.save(&entity)).unwrap();

    let loaded = load(&mut rows, &model, &entity.key).unwrap();
    assert_eq!(encoded(&entity), loaded);

    let found = by_unique(&mut rows, &model, "username", "testuser").unwrap().unwrap();
    assert_eq!(encoded(&entity), found);

    let by_email = by_multi(&mut rows, &model, "email", "test@example.com").unwrap();
    assert_eq!(by_email.len(), 1);
    assert_eq!(by_email[0], encoded(&entity));

    let by_department = by_multi(&mut rows, &model, "department", "Engineering").unwrap();
    assert_eq!(by_department.len(), 1);
    assert_eq!(by_department[0], encoded(&entity));

    let mut loaded_user = entity.clone();
    let start = model
        .set_field(&mut loaded_user, 2, cbor("newemail@example.com"), json("newemail@example.com"))
        .unwrap();
    run(&mut rows, start).unwrap();
    assert!(model.set_field(&mut loaded_user, 4, cbor("x"), json("x")).is_none());
    assert_eq!(loaded_user.fields[2].encoded, cbor("newemail@example.com"));
    assert_eq!(load(&mut rows, &model, &entity.key).unwrap(), encoded(&loaded_user));
    assert!(by_multi(&mut rows, &model, "email", "test@example.com").unwrap().is_empty());
    assert_eq!(by_multi(&mut rows, &model, "email", "newemail@example.com").unwrap().len(), 1);

    run(&mut rows, model.delete(&loaded_user)).unwrap();

    assert!(load(&mut rows, &model, &entity.key).is_err());
    assert_eq!(
        load(&mut rows, &model, &entity.key),
        Err(StoreError::NotFound { field: "id".to_string() })
    );
    assert_eq!(by_unique(&mut rows, &model, "username", "testuser").unwrap(), None);
    assert!(by_multi(&mut rows, &model, "department", "Engineering").unwrap().is_empty());
}

#[test]
fn test_user_all() {
    let mut rows = Rows::new();
    let model = user_model();
    let users = vec![
        user("id-1", "alice", "alice@example.com", "Engineering"),
        user("id-2", "bob", "bob@example.com", "Engineering"),
        user("id-3", "charlie", "charlie@example.com", "Marketing"),
    ];
    for u in &users {
        run(&mut rows, model.save(u)).unwrap();
    }

    let bob = by_unique(&mut rows, &model, "username", "bob").unwrap().unwrap();
    assert_eq!(bob, encoded(&users[1]));

    let engineering = by_multi(&mut rows, &model, "department", "Engineering").unwrap();
    assert_eq!(engineering.len(), 2);

    let found = enumerate(&mut rows, &model);
    let mut expected: Vec<Vec<Vec<u8>>> = users.iter().map(encoded).collect();
    expected.sort();
    assert_eq!(expected, found);
}

#[test]
fn test_backup_restore() {
    let mut rows = Rows::new();
    let model = user_model();
    let users = vec![
        user("id-1", "alice", "alice@example.com", "Engineering"),
        user("id-2", "bob", "bob@example.com", "Engineering"),
    ];
    for u in &users {
        run(&mut rows, model.save(u)).unwrap();
    }
    let alice = by_unique(&mut rows, &model, "username", "alice").unwrap().unwrap();
    assert_eq!(alice, encoded(&users[0]));
    assert_eq!(by_multi(&mut rows, &model, "department", "Engineering").unwrap().len(), 2);

    let backup = enumerate(&mut rows, &model);
    assert_eq!(backup.len(), 2);

    for u in &users {
        run(&mut rows, model.delete(u)).unwrap();
    }
    assert!(enumerate(&mut rows, &model).is_empty());

    for u in &users {
        run(&mut rows, model.save(u)).unwrap();
    }
    let restored = enumerate(&mut rows, &model);
    let mut expected: Vec<Vec<Vec<u8>>> = users.iter().map(encoded).collect();
    expected.sort();
    assert_eq!(expected, restored);
    assert_eq!(backup, restored);
}

#[test]
fn test_migrations() {
    let mut rows = Rows::new();
    let old = Model { name: "User".to_string(), predecessor: None, strict: false };
    let new = Model { name: "UserV2".to_string(), predecessor: Some("User".to_string()), strict: false };
    let v1 = Entity {
        key: json("id-1"),
        fields: vec![
            field("id", IndexKind::Plain, "id-1"),
            field("name", IndexKind::Unique, "John Doe"),
            field("email", IndexKind::Plain, "john@example.com"),
        ],
    };
    run(&mut rows, old.save(&v1)).unwrap();

    let mut applied = 0;
    for _ in 0..2 {
        let reply = answer(&mut rows, ledger_request(&new.name));
        match plan_migration(reply, "User", &new.name).unwrap() {
            MigrationPlan::UpToDate => {}
            MigrationPlan::Replay { ledger } => {
                let (first, last) = "John Doe".split_once(' ').unwrap();
                let v2 = Entity {
                    key: v1.key.clone(),
                    fields: vec![
                        field("id", IndexKind::Plain, "id-1"),
                        field("first_name", IndexKind::Unique, first),
                        field("last_name", IndexKind::Plain, last),
                        field("email", IndexKind::Plain, "john@example.com"),
                    ],
                };
                run(&mut rows, new.save(&v2)).unwrap();
                applied += 1;
                let seal = seal_migration(ledger, "User", &new.name).unwrap();
                assert_eq!(answer(&mut rows, seal), Reply::Done);
            }
        }
    }
    assert_eq!(applied, 1);

    let fields = vec![
        "id".to_string(),
        "first_name".to_string(),
        "last_name".to_string(),
        "email".to_string(),
    ];
    let (mut loader, mut step) = Loader::begin(&new.name, &v1.key, fields);
    let migrated = loop {
        match step {
            LoadStep::Ask(request) => {
                let reply = answer(&mut rows, request);
                step = loader.resume(reply);
            }
            LoadStep::Done(found) => break found,
            LoadStep::Failed(e) => panic!("{:?}", e),
        }
    };
    assert_eq!(migrated[0], cbor("id-1"));
    assert_eq!(migrated[1], cbor("John"));
    assert_eq!(migrated[2], cbor("Doe"));
    assert_eq!(migrated[3], cbor("john@example.com"));
}

#[test]
fn keys_have_the_literal_formats() {
    assert_eq!(field_row_key("User", "\"k\"", "email"), "ergokv:User:\"k\":email");
    assert_eq!(unique_index_key("User", "name", "\"v\""), "ergokv:User:unique_index:name:\"v\"");
    assert_eq!(multi_index_key("User", "dept", "7"), "ergokv:User:index:dept:7");
    assert_eq!(trie_entry("User", "\"k\""), "User:\"k\"");
    assert_eq!(ledger_key("User"), "User:__migrations");
    assert_eq!(migration_name("User", "UserV2"), "User->UserV2");
    assert_eq!(master_trie(), "ergokv:__trie");
}

#[test]
fn save_script_has_trie_rows_and_indexes_in_order() {
    let model = user_model();
    let entity = Entity {
        key: "7".to_string(),
        fields: vec![
            Field { name: "id".to_string(), index: IndexKind::Plain, encoded: vec![7], json: "7".to_string() },
            Field { name: "n".to_string(), index: IndexKind::Unique, encoded: vec![1], json: "1".to_string() },
            Field { name: "d".to_string(), index: IndexKind::Multi, encoded: vec![2], json: "2".to_string() },
        ],
    };
    let tasks = model.save_script(&entity);
    assert_eq!(tasks.len(), 7 + 3 + 2);
    assert_eq!(tasks[0], Task::Link { key: "ergokv:__trie:trie:node:".to_string(), child: 'U' });
    assert_eq!(
        tasks[6],
        Task::Mark { key: "ergokv:__trie:trie:node:User:7".to_string(), terminal: "User:7".to_string() }
    );
    assert_eq!(tasks[7], Task::Put { key: "ergokv:User:7:id".to_string(), value: Payload::Bytes(vec![7]) });
    assert_eq!(tasks[9], Task::Put { key: "ergokv:User:7:d".to_string(), value: Payload::Bytes(vec![2]) });
    assert_eq!(
        tasks[10],
        Task::Put { key: "ergokv:User:unique_index:n:1".to_string(), value: Payload::Key("7".to_string()) }
    );
    assert_eq!(
        tasks[11],
        Task::Enlist { key: "ergokv:User:index:d:2".to_string(), member: "7".to_string() }
    );

    let gone = model.delete_script(&entity);
    assert_eq!(gone.len(), 6 + 3 + 2);
    assert_eq!(gone[5], Task::Unmark { key: "ergokv:__trie:trie:node:User:7".to_string() });
    assert_eq!(gone[6], Task::Delete { key: "ergokv:User:7:id".to_string() });
    assert_eq!(gone[9], Task::Delete { key: "ergokv:User:unique_index:n:1".to_string() });
    assert_eq!(
        gone[10],
        Task::Retract { key: "ergokv:User:index:d:2".to_string(), member: "7".to_string() }
    );
}

#[test]
fn unique_index_is_overwritten_by_the_last_writer() {
    let mut rows = Rows::new();
    let model = user_model();
    let first = user("id-1", "same", "a@example.com", "A");
    let second = user("id-2", "same", "b@example.com", "B");
    run(&mut rows, model.save(&first)).unwrap();
    run(&mut rows, model.save(&second)).unwrap();
    let found = by_unique(&mut rows, &model, "username", "same").unwrap().unwrap();
    assert_eq!(found, encoded(&second));
}

#[test]
fn multi_index_keeps_each_key_once_and_drops_an_empty_entry() {
    let mut rows = Rows::new();
    let model = user_model();
    let a = user("id-1", "a", "x@example.com", "Ops");
    let b = user("id-2", "b", "y@example.com", "Ops");
    run(&mut rows, model.save(&a)).unwrap();
    run(&mut rows, model.save(&a)).unwrap();
    run(&mut rows, model.save(&b)).unwrap();
    let entry = multi_index_key("User", "department", &json("Ops"));
    assert_eq!(rows.get(&entry), Some(&Payload::Keys(vec![json("id-1"), json("id-2")])));
    run(&mut rows, model.delete(&a)).unwrap();
    assert_eq!(rows.get(&entry), Some(&Payload::Keys(vec![json("id-2")])));
    run(&mut rows, model.delete(&b)).unwrap();
    assert_eq!(rows.get(&entry), None);
    assert!(rows.keys().all(|k| k.starts_with("ergokv:__trie:")));
}

#[test]
fn index_sets_join_and_leave() {
    let keys = vec!["a".to_string(), "b".to_string()];
    assert!(holds(&keys, "b"));
    assert!(!holds(&keys, "c"));
    assert_eq!(enlist(keys.clone(), "b"), keys);
    assert_eq!(enlist(keys.clone(), "c"), vec!["a".to_string(), "b".to_string(), "c".to_string()]);
    assert_eq!(retract(&keys, "a"), vec!["b".to_string()]);
    assert_eq!(retract(&keys, "z"), keys);
    assert!(retract(&enlist(Vec::new(), "k"), "k").is_empty());
}

#[test]
fn load_reports_the_missing_field_and_unreadable_rows() {
    let mut rows = Rows::new();
    let model = user_model();
    let entity = user("id-1", "a", "x@example.com", "Ops");
    run(&mut rows, model.save(&entity)).unwrap();
    rows.remove(&field_row_key("User", &entity.key, "email"));
    assert_eq!(
        load(&mut rows, &model, &entity.key),
        Err(StoreError::NotFound { field: "email".to_string() })
    );
    rows.insert(field_row_key("User", &entity.key, "email"), Payload::Key("k".to_string()));
    assert_eq!(load(&mut rows, &model, &entity.key), Err(StoreError::DecodeError));
    let (mut loader, _) = Loader::begin("User", &entity.key, names());
    assert_eq!(loader.resume(Reply::Failed), LoadStep::Failed(StoreError::StoreConflict));
    assert_eq!(loader.resume(Reply::Missing), LoadStep::Done(Vec::new()));
    let (_, step) = Loader::begin("User", "k", Vec::new());
    assert_eq!(step, LoadStep::Done(Vec::new()));
}

#[test]
fn index_replies_are_read_by_shape() {
    assert_eq!(unique_hit(Reply::Missing), Ok(None));
    assert_eq!(unique_hit(Reply::Found(Payload::Key("k".to_string()))), Ok(Some("k".to_string())));
    assert_eq!(unique_hit(Reply::Found(Payload::Bytes(vec![]))), Err(StoreError::DecodeError));
    assert_eq!(unique_hit(Reply::Undecodable), Err(StoreError::DecodeError));
    assert_eq!(unique_hit(Reply::Failed), Err(StoreError::StoreConflict));
    assert_eq!(multi_hits(Reply::Missing), Ok(Vec::new()));
    assert_eq!(multi_hits(Reply::Found(Payload::Keys(vec!["k".to_string()]))), Ok(vec!["k".to_string()]));
    assert_eq!(multi_hits(Reply::Done), Err(StoreError::StoreConflict));
}

#[test]
fn ledger_is_stored_as_a_list_of_names() {
    let seal = seal_migration(Vec::new(), "A", "B").unwrap();
    let bytes = vec![0x81, 0x64, 0x41, 0x2d, 0x3e, 0x42];
    assert_eq!(seal, Request::Put { key: "B:__migrations".to_string(), value: Payload::Bytes(bytes.clone()) });
    assert_eq!(
        plan_migration(Reply::Found(Payload::Bytes(bytes.clone())), "A", "B"),
        Ok(MigrationPlan::UpToDate)
    );
    assert_eq!(
        plan_migration(Reply::Found(Payload::Bytes(bytes)), "X", "B"),
        Ok(MigrationPlan::Replay { ledger: vec!["A->B".to_string()] })
    );
    assert_eq!(
        plan_migration(Reply::Missing, "A", "B"),
        Ok(MigrationPlan::Replay { ledger: Vec::new() })
    );
    assert_eq!(
        plan_migration(Reply::Found(Payload::Bytes(vec![0xff, 0x00])), "A", "B"),
        Err(StoreError::DecodeError)
    );
    assert_eq!(plan_migration(Reply::Failed, "A", "B"), Err(StoreError::StoreConflict));
    assert_eq!(
        ledger_request("B"),
        Request::Get { key: "B:__migrations".to_string(), kind: Kind::Bytes }
    );
}

#[test]
fn ledger_entry_is_appended_once() {
    let mut rows = Rows::new();
    for _ in 0..3 {
        let reply = answer(&mut rows, ledger_request("B"));
        if let MigrationPlan::Replay { ledger } = plan_migration(reply, "A", "B").unwrap() {
            let seal = seal_migration(ledger, "A", "B").unwrap();
            answer(&mut rows, seal);
        }
    }
    let reply = answer(&mut rows, ledger_request("B"));
    assert_eq!(plan_migration(reply, "Z", "B"), Ok(MigrationPlan::Replay { ledger: vec!["A->B".to_string()] }));
}

#[test]
fn strict_guard_forbids_writes_out_of_order() {
    let none: Option<String> = None;
    let prev = Some("A".to_string());
    let ledger = vec!["A->B".to_string()];
    assert_eq!(check_mutation(&ledger, "B", &prev), Ok(()));
    assert_eq!(check_mutation(&ledger, "B", &none), Ok(()));
    assert_eq!(check_mutation(&ledger, "A", &none), Err(StoreError::MigrationOrderError));
    assert_eq!(check_mutation(&Vec::new(), "B", &prev), Err(StoreError::MigrationOrderError));
    assert_eq!(check_mutation(&Vec::new(), "A", &none), Ok(()));
    assert_eq!(check_mutation(&ledger, "AA", &none), Ok(()));
    assert!(has_prefix("A->B", "A->"));
    assert!(!has_prefix("A-", "A->"));
    assert!(has_prefix("x", ""));
}

#[test]
fn strict_mode_guards_save_delete_and_set() {
    let mut rows = Rows::new();
    let old = Model { name: "A".to_string(), predecessor: None, strict: true };
    let new = Model { name: "B".to_string(), predecessor: Some("A".to_string()), strict: true };
    let mut entity = user("id-1", "a", "x@example.com", "Ops");

    run(&mut rows, old.save(&entity)).unwrap();
    assert_eq!(run(&mut rows, new.save(&entity)), Err(StoreError::MigrationOrderError));
    assert_eq!(run(&mut rows, new.delete(&entity)), Err(StoreError::MigrationOrderError));

    let seal = seal_migration(Vec::new(), "A", "B").unwrap();
    answer(&mut rows, seal);
    run(&mut rows, new.save(&entity)).unwrap();

    answer(
        &mut rows,
        Request::Put { key: "A:__migrations".to_string(), value: Payload::Bytes(vec![0x81, 0x64, 0x41, 0x2d, 0x3e, 0x42]) },
    );
    let before = rows.clone();
    assert_eq!(run(&mut rows, old.save(&entity)), Err(StoreError::MigrationOrderError));
    assert_eq!(run(&mut rows, old.delete(&entity)), Err(StoreError::MigrationOrderError));
    let start = old.set_field(&mut entity, 2, cbor("y"), json("y")).unwrap();
    assert_eq!(run(&mut rows, start), Err(StoreError::MigrationOrderError));
    assert_eq!(rows, before);

    rows.insert("A:__migrations".to_string(), Payload::Bytes(vec![0xff]));
    assert_eq!(run(&mut rows, old.save(&entity)), Err(StoreError::DecodeError));
}

#[test]
fn enumeration_strips_the_model_prefix() {
    let mut stream = ModelStream::new("User:".to_string());
    assert_eq!(
        stream.poll(),
        Some(Request::Get { key: "ergokv:__trie:trie:node:User:".to_string(), kind: Kind::Node })
    );
    let node = ergokv::TrieNode { children: vec![], key: Some("User:7".to_string()) };
    assert_eq!(stream.absorb(Reply::Found(Payload::Node(node))), Ok(Some("7".to_string())));
    let mut stream = ModelStream::new("User:".to_string());
    stream.poll();
    let node = ergokv::TrieNode { children: vec![], key: Some("Other:7".to_string()) };
    assert_eq!(stream.absorb(Reply::Found(Payload::Node(node))), Err(StoreError::DecodeError));
}

#[test]
fn migration_reads_replays_and_seals_in_order() {
    let model = Model { name: "B".to_string(), predecessor: Some("A".to_string()), strict: false };
    let (mut migration, first) = Migration::begin(&model);
    assert_eq!(first, MigrationAction::Ask(ledger_request("B")));
    assert_eq!(migration.advance(MigrationEvent::Answer(Reply::Missing)), MigrationAction::EnsurePredecessor);
    assert_eq!(migration.advance(MigrationEvent::PredecessorEnsured), MigrationAction::ReplayNext);
    assert_eq!(migration.advance(MigrationEvent::Migrated), MigrationAction::ReplayNext);
    assert_eq!(migration.advance(MigrationEvent::Migrated), MigrationAction::ReplayNext);
    let seal = migration.advance(MigrationEvent::Exhausted);
    assert_eq!(
        seal,
        MigrationAction::Ask(Request::Put {
            key: "B:__migrations".to_string(),
            value: Payload::Bytes(vec![0x81, 0x64, 0x41, 0x2d, 0x3e, 0x42]),
        })
    );
    assert_eq!(migration.advance(MigrationEvent::Answer(Reply::Done)), MigrationAction::Done);
    assert_eq!(migration.phase, MigrationPhase::Over);
    assert_eq!(
        migration.advance(MigrationEvent::Migrated),
        MigrationAction::Fail(StoreError::StoreConflict)
    );
}

#[test]
fn migration_is_skipped_once_recorded_and_aborts_on_a_refused_record() {
    let model = Model { name: "B".to_string(), predecessor: Some("A".to_string()), strict: false };
    let sealed = Reply::Found(Payload::Bytes(vec![0x81, 0x64, 0x41, 0x2d, 0x3e, 0x42]));
    let (mut migration, _) = Migration::begin(&model);
    assert_eq!(migration.advance(MigrationEvent::Answer(sealed)), MigrationAction::Done);

    let (mut migration, _) = Migration::begin(&model);
    migration.advance(MigrationEvent::Answer(Reply::Missing));
    migration.advance(MigrationEvent::PredecessorEnsured);
    assert_eq!(migration.advance(MigrationEvent::TransformFailed), MigrationAction::Abort);
    assert_eq!(migration.phase, MigrationPhase::Over);

    let (mut migration, _) = Migration::begin(&model);
    assert_eq!(
        migration.advance(MigrationEvent::Answer(Reply::Undecodable)),
        MigrationAction::Fail(StoreError::DecodeError)
    );

    let root = Model { name: "A".to_string(), predecessor: None, strict: false };
    let (migration, first) = Migration::begin(&root);
    assert_eq!(first, MigrationAction::Done);
    assert_eq!(migration.phase, MigrationPhase::Over);
}

#[test]
fn enumeration_yields_exactly_the_saved_keys() {
    let mut rows = Rows::new();
    let model = user_model();
    let other = Model { name: "UserProfile".to_string(), predecessor: None, strict: false };
    let ids = ["k1", "k2", "k10", "z"];
    for id in ids {
        run(&mut rows, model.save(&user(id, id, "e@example.com", "D"))).unwrap();
    }
    run(&mut rows, other.save(&user("k1", "p", "e@example.com", "D"))).unwrap();
    let mut found = Vec::new();
    let mut stream = ModelStream::new("User:".to_string());
    while let Some(request) = stream.poll() {
        let reply = answer(&mut rows, request);
        if let Some(key) = stream.absorb(reply).unwrap() {
            found.push(key);
        }
    }
    found.sort();
    let mut expected: Vec<String> = ids.iter().map(|id| json(id)).collect();
    expected.sort();
    assert_eq!(found, expected);

    run(&mut rows, model.delete(&user("k2", "k2", "e@example.com", "D"))).unwrap();
    let mut stream = ModelStream::new("User:".to_string());
    let mut left = Vec::new();
    while let Some(request) = stream.poll() {
        let reply = answer(&mut rows, request);
        if let Some(key) = stream.absorb(reply).unwrap() {
            left.push(key);
        }
    }
    left.sort();
    assert_eq!(left, vec![json("k1"), json("k10"), json("z")]);
}

#[test]
fn backup_file_is_named_by_model_and_seconds() {
    assert_eq!(backup_file_name("User", 1234567890), "User_1234567890.json");
    assert_eq!(backup_file_name("User", 0), "User_0.json");
    assert_eq!(backup_file_name("A", 10), "A_10.json");
    assert_eq!(backup_file_name("A", 907), "A_907.json");
    assert_eq!(backup_file_name("", u64::MAX), "_18446744073709551615.json");
}

#[test]
fn save_is_idempotent_by_key() {
    let mut rows = Rows::new();
    let model = user_model();
    let a = user("id-1", "a", "x@example.com", "Ops");
    let b = user("id-2", "b", "y@example.com", "Ops");
    run(&mut rows, model.save(&a)).unwrap();
    run(&mut rows, model.save(&b)).unwrap();
    let once = rows.clone();
    run(&mut rows, model.save(&a)).unwrap();
    run(&mut rows, model.save(&b)).unwrap();
    assert_eq!(rows, once);
}

#[test]
fn interrupted_migration_is_safe_to_retry() {
    let mut rows = Rows::new();
    let old = Model { name: "A".to_string(), predecessor: None, strict: false };
    let new = Model { name: "B".to_string(), predecessor: Some("A".to_string()), strict: false };
    let records = vec![user("id-1", "a", "x@example.com", "Ops"), user("id-2", "b", "y@example.com", "Ops")];
    for r in &records {
        run(&mut rows, old.save(r)).unwrap();
    }

    let (mut migration, first) = Migration::begin(&new);
    let request = match first {
        MigrationAction::Ask(request) => request,
        other => panic!("{:?}", other),
    };
    let reply = answer(&mut rows, request);
    assert_eq!(migration.advance(MigrationEvent::Answer(reply)), MigrationAction::EnsurePredecessor);
    assert_eq!(migration.advance(MigrationEvent::PredecessorEnsured), MigrationAction::ReplayNext);
    run(&mut rows, new.save(&records[0])).unwrap();
    assert_eq!(migration.advance(MigrationEvent::Migrated), MigrationAction::ReplayNext);
    assert_eq!(migration.advance(MigrationEvent::TransformFailed), MigrationAction::Abort);
    assert_eq!(rows.get("B:__migrations"), None);

    let (mut migration, first) = Migration::begin(&new);
    let mut action = first;
    let mut pending: Vec<&Entity> = records.iter().rev().collect();
    let mut replayed = 0;
    loop {
        let event = match action {
            MigrationAction::Ask(request) => MigrationEvent::Answer(answer(&mut rows, request)),
            MigrationAction::EnsurePredecessor => MigrationEvent::PredecessorEnsured,
            MigrationAction::ReplayNext => match pending.pop() {
                Some(record) => {
                    run(&mut rows, new.save(record)).unwrap();
                    replayed += 1;
                    MigrationEvent::Migrated
                }
                None => MigrationEvent::Exhausted,
            },
            MigrationAction::Done => break,
            other => panic!("{:?}", other),
        };
        action = migration.advance(event);
    }
    assert_eq!(replayed, 2);
    assert!(rows.contains_key("B:__migrations"));
    let found = {
        let mut stream = ModelStream::new("B:".to_string());
        let mut keys = Vec::new();
        while let Some(request) = stream.poll() {
            let reply = answer(&mut rows, request);
            if let Some(key) = stream.absorb(reply).unwrap() {
                keys.push(key);
            }
        }
        keys.sort();
        keys
    };
    assert_eq!(found, vec![json("id-1"), json("id-2")]);

    let (mut again, first) = Migration::begin(&new);
    let request = match first {
        MigrationAction::Ask(request) => request,
        other => panic!("{:?}", other),
    };
    let reply = answer(&mut rows, request);
    assert_eq!(again.advance(MigrationEvent::Answer(reply)), MigrationAction::Done);
}
