//! The literal formats of the keys under which rows are stored.

use vstd::prelude::*;
use vstd::string::StringExecFns;

verus! {

/// `ergokv:{model}:{key}:{field}`: the key of one field row, `key` being the
/// entity key in its serialized form.
pub open spec fn field_row_text(model: Seq<char>, key: Seq<char>, field: Seq<char>) -> Seq<char> {
    "ergokv:"@ + model + ":"@ + key + ":"@ + field
}

/// `ergokv:{model}:unique_index:{field}:{value}`: the key of a unique index
/// entry, `value` being the field value in its serialized form.
pub open spec fn unique_index_text(model: Seq<char>, field: Seq<char>, value: Seq<char>) -> Seq<
    char,
> {
    "ergokv:"@ + model + ":unique_index:"@ + field + ":"@ + value
}

/// `ergokv:{model}:index:{field}:{value}`: the key of a multi index entry.
pub open spec fn multi_index_text(model: Seq<char>, field: Seq<char>, value: Seq<char>) -> Seq<
    char,
> {
    "ergokv:"@ + model + ":index:"@ + field + ":"@ + value
}

/// `{namespace}:trie:node:{path}`: the key of the trie node at `path`.
pub open spec fn node_text(namespace: Seq<char>, path: Seq<char>) -> Seq<char> {
    namespace + ":trie:node:"@ + path
}

/// `{model}:{key}`: the text under which an entity is entered in the trie.
pub open spec fn trie_entry_text(model: Seq<char>, key: Seq<char>) -> Seq<char> {
    model + ":"@ + key
}

/// `{model}:__migrations`: the key of a model's migration ledger.
pub open spec fn ledger_text(model: Seq<char>) -> Seq<char> {
    model + ":__migrations"@
}

/// `{predecessor}->{successor}`: the name of a migration in the ledger.
pub open spec fn migration_text(predecessor: Seq<char>, successor: Seq<char>) -> Seq<char> {
    predecessor + "->"@ + successor
}

/// The namespace of the trie in which every entity is entered.
pub open spec fn master_trie_text() -> Seq<char> {
    "ergokv:__trie"@
}

/// The decimal digit of a number below ten.
pub open spec fn digit_of(d: int) -> char {
    if d == 0 {
        '0'
    } else if d == 1 {
        '1'
    } else if d == 2 {
        '2'
    } else if d == 3 {
        '3'
    } else if d == 4 {
        '4'
    } else if d == 5 {
        '5'
    } else if d == 6 {
        '6'
    } else if d == 7 {
        '7'
    } else if d == 8 {
        '8'
    } else {
        '9'
    }
}

/// The decimal numeral of a number, without leading zeros.
pub open spec fn decimal(n: nat) -> Seq<char>
    decreases n,
{
    if n < 10 {
        seq![digit_of(n as int)]
    } else {
        decimal(n / 10).push(digit_of((n % 10) as int))
    }
}

/// `{model}_{seconds}.json`: the name of the backup file of a model that
/// was written at `seconds` after the Unix epoch.
pub open spec fn backup_file_text(model: Seq<char>, seconds: nat) -> Seq<char> {
    model + "_"@ + decimal(seconds) + ".json"@
}

/// The key of the field row of `field` for the entity `key` of `model`.
pub fn field_row_key(model: &str, key: &str, field: &str) -> (text: String)
    ensures
        text@ == field_row_text(model@, key@, field@),
{
    let mut text = String::from_str("ergokv:");
    text.append(model);
    text.append(":");
    text.append(key);
    text.append(":");
    text.append(field);
    text
}

/// The key of the unique index entry of `field` for `value`.
pub fn unique_index_key(model: &str, field: &str, value: &str) -> (text: String)
    ensures
        text@ == unique_index_text(model@, field@, value@),
{
    let mut text = String::from_str("ergokv:");
    text.append(model);
    text.append(":unique_index:");
    text.append(field);
    text.append(":");
    text.append(value);
    text
}

/// The key of the multi index entry of `field` for `value`.
pub fn multi_index_key(model: &str, field: &str, value: &str) -> (text: String)
    ensures
        text@ == multi_index_text(model@, field@, value@),
{
    let mut text = String::from_str("ergokv:");
    text.append(model);
    text.append(":index:");
    text.append(field);
    text.append(":");
    text.append(value);
    text
}

/// The key of the trie node at `path` in the trie of `namespace`.
pub fn node_name(namespace: &str, path: &str) -> (text: String)
    ensures
        text@ == node_text(namespace@, path@),
{
    let mut text = String::from_str(namespace);
    text.append(":trie:node:");
    text.append(path);
    text
}

/// The text under which the entity `key` of `model` is entered in the trie.
pub fn trie_entry(model: &str, key: &str) -> (text: String)
    ensures
        text@ == trie_entry_text(model@, key@),
{
    let mut text = String::from_str(model);
    text.append(":");
    text.append(key);
    text
}

/// The key of the migration ledger of `model`.
pub fn ledger_key(model: &str) -> (text: String)
    ensures
        text@ == ledger_text(model@),
{
    let mut text = String::from_str(model);
    text.append(":__migrations");
    text
}

/// The ledger name of the migration from `predecessor` to `successor`.
pub fn migration_name(predecessor: &str, successor: &str) -> (text: String)
    ensures
        text@ == migration_text(predecessor@, successor@),
{
    let mut text = String::from_str(predecessor);
    text.append("->");
    text.append(successor);
    text
}

/// The namespace of the trie in which every entity is entered.
pub fn master_trie() -> (text: String)
    ensures
        text@ == master_trie_text(),
{
    String::from_str("ergokv:__trie")
}

/// The decimal digit of `d`.
fn digit(d: u64) -> (c: char)
    requires
        d < 10,
    ensures
        c == digit_of(d as int),
{
    if d == 0 {
        '0'
    } else if d == 1 {
        '1'
    } else if d == 2 {
        '2'
    } else if d == 3 {
        '3'
    } else if d == 4 {
        '4'
    } else if d == 5 {
        '5'
    } else if d == 6 {
        '6'
    } else if d == 7 {
        '7'
    } else if d == 8 {
        '8'
    } else {
        '9'
    }
}

/// The digits of `n`, the least significant first.
fn digits_backwards(n: u64) -> (digits: Vec<char>)
    ensures
        digits@.reverse() == decimal(n as nat),
{
    let mut digits: Vec<char> = Vec::new();
    let mut rest: u64 = n;
    while rest >= 10
        invariant
            decimal(n as nat) == decimal(rest as nat) + digits@.reverse(),
        decreases rest,
    {
        let ghost before = digits@;
        digits.push(digit(rest % 10));
        proof {
            let d = digit_of((rest % 10) as int);
            assert(before.push(d).reverse() =~= seq![d] + before.reverse());
            assert(decimal(rest as nat) == decimal((rest / 10) as nat).push(d));
            assert(decimal((rest / 10) as nat).push(d) + before.reverse() =~= decimal(
                (rest / 10) as nat,
            ) + (seq![d] + before.reverse()));
        }
        rest = rest / 10;
    }
    let ghost before = digits@;
    digits.push(digit(rest));
    proof {
        let d = digit_of(rest as int);
        assert(before.push(d).reverse() =~= seq![d] + before.reverse());
    }
    digits
}

/// The name of the backup file of `model` that was written at `seconds`
/// after the Unix epoch.
pub fn backup_file_name(model: &str, seconds: u64) -> (text: String)
    ensures
        text@ == backup_file_text(model@, seconds as nat),
{
    let digits = digits_backwards(seconds);
    let mut text = String::from_str(model);
    text.append("_");
    let ghost head = text@;
    let mut i: usize = digits.len();
    while i > 0
        invariant
            i <= digits.len(),
            text@ == head + digits@.reverse().take(digits.len() - i),
        decreases i,
    {
        i -= 1;
        push_char(&mut text, digits[i]);
        proof {
            let r = digits@.reverse();
            let k = digits.len() - i - 1;
            assert(r[k] == digits@[i as int]);
            assert(r.take(k + 1) =~= r.take(k).push(r[k]));
            assert(text@ =~= head + r.take(k + 1));
        }
    }
    proof {
        let r = digits@.reverse();
        assert(r.take(digits.len() as int) =~= r);
    }
    text.append(".json");
    text
}

/// Calls `String::push` of the standard library, which appends one character
/// to the end of a string.
#[verifier::external_body]
pub(crate) fn push_char(text: &mut String, c: char)
    ensures
        final(text)@ == old(text)@.push(c),
{
    text.push(c)
}

} // verus!
