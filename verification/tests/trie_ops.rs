use std::collections::HashMap;

use ergokv::cursor::{Progress, WriteCursor};
use ergokv::lookup::LookupStep;
use ergokv::script::Task;
use ergokv::store::{Kind, Payload, Reply, Request, StoreError};
use ergokv::stream::PrefixTrieStream;
use ergokv::{PrefixTrie, TrieNode};

type Rows = HashMap<String, Payload>;

fn kind_of(value: &Payload) -> Kind {
    match value {
        Payload::Bytes(_) => Kind::Bytes,
        Payload::Node(_) => Kind::Node,
        Payload::Key(_) => Kind::Key,
        Payload::Keys(_) => Kind::Keys,
    }
}

fn answer(rows: &mut Rows, request: Request) -> Reply {
    match request {
        Request::Get { key, kind } => match rows.get(&key) {
            None => Reply::Missing,
            Some(value) if kind_of(value) == kind => Reply::Found(value.clone()),
            Some(_) => Reply::Undecodable,
        },
        Request::Put { key, value } => {
            rows.insert(key, value);
            Reply::Done
        }
        Request::Delete { key } => {
            rows.remove(&key);
            Reply::Done
        }
    }
}

fn run(rows: &mut Rows, start: (WriteCursor, Progress)) -> Result<(), StoreError> {
    let (mut cursor, mut progress) = start;
    loop {
        match progress {
            Progress::Ask(request) => {
                let reply = answer(rows, request);
                progress = cursor.resume(reply);
            }
            Progress::Finished => return Ok(()),
            Progress::Failed(e) => return Err(e),
        }
    }
}

fn insert(rows: &mut Rows, trie: &PrefixTrie, key: &str) -> Result<(), StoreError> {
    let start = trie.insert(key)?;
    run(rows, start)
}

fn remove(rows: &mut Rows, trie: &PrefixTrie, key: &str) -> Result<(), StoreError> {
    run(rows, trie.remove(key))
}

fn get(rows: &mut Rows, trie: &PrefixTrie, key: &str) -> Result<Option<String>, StoreError> {
    let (mut lookup, first) = trie.get(key);
    let mut step = LookupStep::Ask(first);
    loop {
        match step {
            LookupStep::Ask(request) => {
                let reply = answer(rows, request);
                step = lookup.resume(reply);
            }
            LookupStep::Done(found) => return Ok(found),
            LookupStep::Failed(e) => return Err(e),
        }
    }
}

fn collect(rows: &mut Rows, mut stream: PrefixTrieStream) -> Vec<String> {
    let mut results = Vec::new();
    while let Some(request) = stream.poll() {
        let reply = answer(rows, request);
        match stream.absorb(reply) {
            Ok(Some(key)) => results.push(key),
            Ok(None) => {}
            Err(_) => break,
        }
    }
    results.sort();
    results
}

fn all(rows: &mut Rows, trie: &PrefixTrie) -> Vec<String> {
    let root = answer(rows, trie.root_request());
    collect(rows, trie.all(root).unwrap())
}

fn node(children: &[char], key: Option<&str>) -> Payload {
    Payload::Node(TrieNode { children: children.to_vec(), key: key.map(|k| k.to_string()) })
}

#[test]
fn test_basic_operations() {
    let mut rows = Rows::new();
    let trie = PrefixTrie::new("test");

    insert(&mut rows, &trie, "hello").unwrap();
    insert(&mut rows, &trie, "help").unwrap();
    insert(&mut rows, &trie, "helper").unwrap();
    insert(&mut rows, &trie, "hell").unwrap();

    assert_eq!(get(&mut rows, &trie, "help").unwrap(), Some("help".to_string()));
    assert_eq!(get(&mut rows, &trie, "hel").unwrap(), None);

    let results = collect(&mut rows, trie.find_by_prefix("hel"));
    assert_eq!(
        results,
        vec!["hell".to_string(), "hello".to_string(), "help".to_string(), "helper".to_string()]
    );

    remove(&mut rows, &trie, "help").unwrap();
    assert_eq!(get(&mut rows, &trie, "help").unwrap(), None);

    let results = collect(&mut rows, trie.find_by_prefix("hel"));
    assert_eq!(results, vec!["hell".to_string(), "hello".to_string(), "helper".to_string()]);
}

#[test]
fn test_empty_and_single_char() {
    let mut rows = Rows::new();
    let trie = PrefixTrie::new("test");

    assert!(insert(&mut rows, &trie, "").is_err());
    assert_eq!(get(&mut rows, &trie, "").unwrap(), None);

    insert(&mut rows, &trie, "x").unwrap();
    assert_eq!(get(&mut rows, &trie, "x").unwrap(), Some("x".to_string()));

    let results = collect(&mut rows, trie.find_by_prefix("x"));
    assert_eq!(results, vec!["x".to_string()]);
}

#[test]
fn test_overlapping_prefixes() {
    let mut rows = Rows::new();
    let trie = PrefixTrie::new("test");

    insert(&mut rows, &trie, "a").unwrap();
    insert(&mut rows, &trie, "ab").unwrap();
    insert(&mut rows, &trie, "abc").unwrap();

    assert_eq!(get(&mut rows, &trie, "a").unwrap(), Some("a".to_string()));
    assert_eq!(get(&mut rows, &trie, "ab").unwrap(), Some("ab".to_string()));
    assert_eq!(get(&mut rows, &trie, "abc").unwrap(), Some("abc".to_string()));

    remove(&mut rows, &trie, "ab").unwrap();
    assert_eq!(get(&mut rows, &trie, "ab").unwrap(), None);
    assert_eq!(get(&mut rows, &trie, "a").unwrap(), Some("a".to_string()));
    assert_eq!(get(&mut rows, &trie, "abc").unwrap(), Some("abc".to_string()));
}

#[test]
fn test_all_stream() {
    let mut rows = Rows::new();
    let trie = PrefixTrie::new("test");

    insert(&mut rows, &trie, "foo").unwrap();
    insert(&mut rows, &trie, "bar").unwrap();
    insert(&mut rows, &trie, "baz").unwrap();
    insert(&mut rows, &trie, "quux").unwrap();

    let results = all(&mut rows, &trie);
    assert_eq!(
        results,
        vec!["bar".to_string(), "baz".to_string(), "foo".to_string(), "quux".to_string()]
    );
}

#[test]
fn insert_of_empty_key_is_invalid_input() {
    let trie = PrefixTrie::new("test");
    assert_eq!(trie.insert("").err(), Some(StoreError::InvalidInput));
    assert_eq!(trie.insert_script("").err(), Some(StoreError::InvalidInput));
    assert_eq!(StoreError::InvalidInput.describe(), "InvalidInput");
}

#[test]
fn node_keys_have_the_literal_format() {
    let trie = PrefixTrie::new("ns");
    assert_eq!(trie.node_name("ab"), "ns:trie:node:ab");
    assert_eq!(trie.node_name(""), "ns:trie:node:");
    assert_eq!(trie.node_key("ab"), b"ns:trie:node:ab".to_vec());
    assert_eq!(trie.node_key("\u{e9}"), "ns:trie:node:\u{e9}".as_bytes().to_vec());
}

#[test]
fn insert_script_links_each_character_and_marks_the_end() {
    let trie = PrefixTrie::new("t");
    let tasks = trie.insert_script("ab").unwrap();
    assert_eq!(
        tasks,
        vec![
            Task::Link { key: "t:trie:node:".to_string(), child: 'a' },
            Task::Link { key: "t:trie:node:a".to_string(), child: 'b' },
            Task::Mark { key: "t:trie:node:ab".to_string(), terminal: "ab".to_string() },
        ]
    );
}

#[test]
fn remove_script_prunes_front_to_back_and_unmarks_the_end() {
    let trie = PrefixTrie::new("t");
    let tasks = trie.remove_script("abc");
    assert_eq!(
        tasks,
        vec![
            Task::Prune {
                key: "t:trie:node:a".to_string(),
                below: "t:trie:node:ab".to_string(),
                child: 'b'
            },
            Task::Prune {
                key: "t:trie:node:ab".to_string(),
                below: "t:trie:node:abc".to_string(),
                child: 'c'
            },
            Task::Unmark { key: "t:trie:node:abc".to_string() },
        ]
    );
    assert!(trie.remove_script("").is_empty());
}

#[test]
fn insert_writes_one_node_for_each_position() {
    let mut rows = Rows::new();
    let trie = PrefixTrie::new("t");
    insert(&mut rows, &trie, "hi").unwrap();
    assert_eq!(rows.len(), 3);
    assert_eq!(rows.get("t:trie:node:"), Some(&node(&['h'], None)));
    assert_eq!(rows.get("t:trie:node:h"), Some(&node(&['i'], None)));
    assert_eq!(rows.get("t:trie:node:hi"), Some(&node(&[], Some("hi"))));
    insert(&mut rows, &trie, "ho").unwrap();
    assert_eq!(rows.get("t:trie:node:h"), Some(&node(&['i', 'o'], None)));
    insert(&mut rows, &trie, "hi").unwrap();
    assert_eq!(rows.get("t:trie:node:h"), Some(&node(&['i', 'o'], None)));
}

#[test]
fn insert_handles_keys_beyond_ascii() {
    let mut rows = Rows::new();
    let trie = PrefixTrie::new("t");
    insert(&mut rows, &trie, "\u{e9}t\u{e9}").unwrap();
    assert_eq!(get(&mut rows, &trie, "\u{e9}t\u{e9}").unwrap(), Some("\u{e9}t\u{e9}".to_string()));
    assert_eq!(get(&mut rows, &trie, "\u{e9}t").unwrap(), None);
    assert_eq!(collect(&mut rows, trie.find_by_prefix("\u{e9}")), vec!["\u{e9}t\u{e9}".to_string()]);
}

#[test]
fn remove_deletes_a_leaf_and_inspects_one_level_ahead() {
    let mut rows = Rows::new();
    let trie = PrefixTrie::new("t");
    insert(&mut rows, &trie, "ab").unwrap();
    remove(&mut rows, &trie, "ab").unwrap();
    assert_eq!(rows.get("t:trie:node:ab"), None);
    assert_eq!(rows.get("t:trie:node:a"), Some(&node(&['b'], None)));
    assert_eq!(get(&mut rows, &trie, "ab").unwrap(), None);
    assert!(collect(&mut rows, trie.find_by_prefix("")).is_empty());
    remove(&mut rows, &trie, "zz").unwrap();
    assert_eq!(rows.len(), 2);
}

#[test]
fn remove_drops_a_child_that_was_dead_already() {
    let mut rows = Rows::new();
    let trie = PrefixTrie::new("t");
    rows.insert("t:trie:node:a".to_string(), node(&['b', 'c'], None));
    rows.insert("t:trie:node:ab".to_string(), node(&[], None));
    rows.insert("t:trie:node:abx".to_string(), node(&[], Some("abx")));
    remove(&mut rows, &trie, "abx").unwrap();
    assert_eq!(rows.get("t:trie:node:a"), Some(&node(&['c'], None)));
    assert_eq!(rows.get("t:trie:node:ab"), None);
    assert_eq!(rows.get("t:trie:node:abx"), None);
}

#[test]
fn get_detects_a_dangling_link() {
    let mut rows = Rows::new();
    let trie = PrefixTrie::new("t");
    rows.insert("t:trie:node:a".to_string(), node(&[], None));
    rows.insert("t:trie:node:ab".to_string(), node(&[], Some("ab")));
    assert_eq!(get(&mut rows, &trie, "ab").unwrap(), None);
    rows.insert("t:trie:node:a".to_string(), node(&['b'], None));
    assert_eq!(get(&mut rows, &trie, "ab").unwrap(), Some("ab".to_string()));
}

#[test]
fn unreadable_node_is_a_decode_error() {
    let mut rows = Rows::new();
    let trie = PrefixTrie::new("t");
    rows.insert("t:trie:node:".to_string(), Payload::Bytes(vec![1, 2, 3]));
    assert_eq!(insert(&mut rows, &trie, "a"), Err(StoreError::DecodeError));
    rows.clear();
    rows.insert("t:trie:node:a".to_string(), Payload::Key("k".to_string()));
    assert_eq!(get(&mut rows, &trie, "a"), Err(StoreError::DecodeError));
    assert_eq!(remove(&mut rows, &trie, "a"), Err(StoreError::DecodeError));
    let mut stream = trie.find_by_prefix("a");
    let request = stream.poll().unwrap();
    let reply = answer(&mut rows, request);
    assert_eq!(stream.absorb(reply), Err(StoreError::DecodeError));
    let root = Reply::Undecodable;
    assert_eq!(trie.all(root).err(), Some(StoreError::DecodeError));
}

#[test]
fn store_failure_ends_the_operation() {
    let trie = PrefixTrie::new("t");
    let (mut cursor, first) = trie.insert("a").unwrap();
    assert_eq!(
        first,
        Progress::Ask(Request::Get { key: "t:trie:node:".to_string(), kind: Kind::Node })
    );
    assert_eq!(cursor.resume(Reply::Failed), Progress::Failed(StoreError::StoreConflict));
    assert_eq!(cursor.resume(Reply::Done), Progress::Finished);

    let (mut cursor, _) = trie.insert("a").unwrap();
    let put = cursor.resume(Reply::Missing);
    assert_eq!(
        put,
        Progress::Ask(Request::Put { key: "t:trie:node:".to_string(), value: node(&['a'], None) })
    );
    assert_eq!(cursor.resume(Reply::Missing), Progress::Failed(StoreError::StoreConflict));

    let (mut lookup, _) = trie.get("a");
    assert_eq!(lookup.resume(Reply::Failed), LookupStep::Failed(StoreError::StoreConflict));
    assert_eq!(lookup.resume(Reply::Missing), LookupStep::Done(None));
}

#[test]
fn traversal_pushes_the_children_of_each_node() {
    let trie = PrefixTrie::new("t");
    let mut stream = trie.find_by_prefix("he");
    assert_eq!(
        stream.poll(),
        Some(Request::Get { key: "t:trie:node:he".to_string(), kind: Kind::Node })
    );
    let found = stream.absorb(Reply::Found(node(&['l', 'y'], Some("he"))));
    assert_eq!(found, Ok(Some("he".to_string())));
    assert_eq!(stream.queue, vec!["hel".to_string(), "hey".to_string()]);
    assert_eq!(
        stream.poll(),
        Some(Request::Get { key: "t:trie:node:hey".to_string(), kind: Kind::Node })
    );
    assert_eq!(stream.absorb(Reply::Missing), Ok(None));
    assert_eq!(stream.queue, vec!["hel".to_string()]);
    stream.poll();
    assert_eq!(stream.absorb(Reply::Found(node(&[], None))), Ok(None));
    assert_eq!(stream.poll(), None);
}

#[test]
fn all_is_the_traversal_without_the_root() {
    let mut rows = Rows::new();
    let trie = PrefixTrie::new("t");
    assert!(all(&mut rows, &trie).is_empty());
    insert(&mut rows, &trie, "b").unwrap();
    insert(&mut rows, &trie, "a").unwrap();
    let root = answer(&mut rows, trie.root_request());
    let stream = trie.all(root).unwrap();
    assert_eq!(stream.queue, vec!["b".to_string(), "a".to_string()]);
    assert_eq!(all(&mut rows, &trie), collect(&mut rows, trie.find_by_prefix("")));
}

#[test]
fn node_children_are_a_set() {
    let mut n = TrieNode::empty();
    assert!(n.is_dead());
    n.add_child('a');
    n.add_child('b');
    n.add_child('a');
    assert_eq!(n.children, vec!['a', 'b']);
    assert!(n.has_child('b'));
    assert!(!n.has_child('c'));
    assert!(!n.is_dead());
    n.remove_child('a');
    assert_eq!(n.children, vec!['b']);
    n.remove_child('z');
    n.remove_child('b');
    assert!(n.is_dead());
    n.key = Some("k".to_string());
    assert!(!n.is_dead());
}
