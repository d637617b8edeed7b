//! Secondary indexes: the ordered set of entity keys that a multi index
//! entry holds, and how a key joins and leaves it.

use vstd::prelude::*;
use vstd::string::StringExecFns;
use crate::store::texts;

verus! {

/// The test that keeps every text but `member`.
pub open spec fn other_text(member: Seq<char>) -> spec_fn(Seq<char>) -> bool {
    |x: Seq<char>| x != member
}

/// The key set after `member` joined: appended at the end, unless it was in
/// the set already.
pub open spec fn enlisted(keys: Seq<Seq<char>>, member: Seq<char>) -> Seq<Seq<char>> {
    if keys.contains(member) {
        keys
    } else {
        keys.push(member)
    }
}

/// The key set after `member` left: the others, in their order.
pub open spec fn retracted(keys: Seq<Seq<char>>, member: Seq<char>) -> Seq<Seq<char>> {
    keys.filter(other_text(member))
}

/// Whether `member` is one of `keys`.
pub fn holds(keys: &Vec<String>, member: &str) -> (found: bool)
    ensures
        found == texts(keys@).contains(member@),
{
    let wanted = String::from_str(member);
    let mut i: usize = 0;
    while i < keys.len()
        invariant
            i <= keys.len(),
            wanted@ == member@,
            forall|j: int| 0 <= j < i ==> texts(keys@)[j] != member@,
        decreases keys.len() - i,
    {
        if keys[i] == wanted {
            assert(texts(keys@)[i as int] == member@);
            return true;
        }
        i += 1;
    }
    false
}

/// Adds `member` to the key set of a multi index entry, if it is absent.
pub fn enlist(keys: Vec<String>, member: &str) -> (out: Vec<String>)
    ensures
        texts(out@) == enlisted(texts(keys@), member@),
{
    if holds(&keys, member) {
        keys
    } else {
        let mut out = keys;
        out.push(String::from_str(member));
        assert(texts(out@) =~= texts(keys@).push(member@));
        out
    }
}

/// Takes `member` out of the key set of a multi index entry.
pub fn retract(keys: &Vec<String>, member: &str) -> (out: Vec<String>)
    ensures
        texts(out@) == retracted(texts(keys@), member@),
{
    let wanted = String::from_str(member);
    let mut out: Vec<String> = Vec::new();
    let mut i: usize = 0;
    while i < keys.len()
        invariant
            i <= keys.len(),
            wanted@ == member@,
            texts(out@) == texts(keys@).take(i as int).filter(other_text(member@)),
        decreases keys.len() - i,
    {
        proof {
            let s = texts(keys@);
            assert(s.take(i + 1).drop_last() == s.take(i as int));
            reveal(Seq::filter);
        }
        let ghost before = out@;
        if keys[i] != wanted {
            out.push(keys[i].clone());
            assert(texts(out@) =~= texts(before).push(keys@[i as int]@));
        }
        i += 1;
    }
    proof {
        assert(texts(keys@).take(i as int) == texts(keys@));
    }
    out
}

/// A key that joined a set is in it, and was added at most once.
pub proof fn lemma_enlisted_holds(keys: Seq<Seq<char>>, member: Seq<char>)
    ensures
        enlisted(keys, member).contains(member),
        enlisted(enlisted(keys, member), member) == enlisted(keys, member),
        keys.no_duplicates() ==> enlisted(keys, member).no_duplicates(),
        forall|other: Seq<char>| keys.contains(other) ==> enlisted(keys, member).contains(other),
{
    let e = enlisted(keys, member);
    if !keys.contains(member) {
        assert(e[keys.len() as int] == member);
        assert forall|other: Seq<char>| keys.contains(other) implies e.contains(other) by {
            let j = choose|j: int| 0 <= j < keys.len() && keys[j] == other;
            assert(e[j] == other);
        }
    }
}

/// A key that left a set is not in it, and every other key stayed.
pub proof fn lemma_retracted_lacks(keys: Seq<Seq<char>>, member: Seq<char>)
    ensures
        !retracted(keys, member).contains(member),
        forall|other: Seq<char>|
            other != member ==> (retracted(keys, member).contains(other) <==> keys.contains(other)),
        retracted(enlisted(Seq::empty(), member), member).len() == 0,
{
    let r = retracted(keys, member);
    if r.contains(member) {
        let j = choose|j: int| 0 <= j < r.len() && r[j] == member;
        keys.lemma_filter_pred(other_text(member), j);
    }
    assert forall|other: Seq<char>| other != member implies (r.contains(other) <==> keys.contains(
        other,
    )) by {
        if r.contains(other) {
            keys.lemma_filter_contains_rev(other_text(member), other);
        }
        if keys.contains(other) {
            let j = choose|j: int| 0 <= j < keys.len() && keys[j] == other;
            keys.lemma_filter_contains(other_text(member), j);
        }
    }
    let one = enlisted(Seq::empty(), member);
    assert(one =~= seq![member]);
    let q = retracted(one, member);
    if q.len() > 0 {
        assert(q.contains(q[0]));
        one.lemma_filter_contains_rev(other_text(member), q[0]);
        one.lemma_filter_pred(other_text(member), 0);
    }
}

} // verus!
