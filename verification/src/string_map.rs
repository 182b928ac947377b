//! A small map from text to text that remembers the order in which its keys
//! came. Environment variables and mount options are kept in one.

use crate::text::str_eq;
use vstd::prelude::*;

verus! {

/// Where `key` stands among `pairs` at or after `from`; the length of
/// `pairs` when it does not.
pub open spec fn find_key(pairs: Seq<(Seq<char>, Seq<char>)>, key: Seq<char>, from: int) -> int
    decreases pairs.len() - from,
{
    if from < 0 || from >= pairs.len() || pairs[from].0 == key {
        from
    } else {
        find_key(pairs, key, from + 1)
    }
}

/// The value that `pairs` hold for `key`, if any.
pub open spec fn value_of(pairs: Seq<(Seq<char>, Seq<char>)>, key: Seq<char>) -> Option<
    Seq<char>,
> {
    let at = find_key(pairs, key, 0);
    if at < pairs.len() {
        Some(pairs[at].1)
    } else {
        None
    }
}

/// `pairs` after `key` was given `value`: a key that is there keeps its
/// place and takes the new value, a new key comes last.
pub open spec fn put(pairs: Seq<(Seq<char>, Seq<char>)>, key: Seq<char>, value: Seq<char>) -> Seq<
    (Seq<char>, Seq<char>),
> {
    let at = find_key(pairs, key, 0);
    if at < pairs.len() {
        pairs.update(at, (key, value))
    } else {
        pairs.push((key, value))
    }
}

/// No key stands twice among `pairs`.
pub open spec fn distinct_keys(pairs: Seq<(Seq<char>, Seq<char>)>) -> bool {
    forall|i: int, j: int|
        0 <= i < j < pairs.len() ==> (#[trigger] pairs[i]).0 != (#[trigger] pairs[j]).0
}

/// The models of a run of pairs.
pub open spec fn pairs_view(entries: Seq<(String, String)>) -> Seq<(Seq<char>, Seq<char>)> {
    entries.map_values(|e: (String, String)| (e.0@, e.1@))
}

/// What `find_key` finds: the first place of the key at or after `from`.
pub proof fn lemma_find_key(pairs: Seq<(Seq<char>, Seq<char>)>, key: Seq<char>, from: int)
    requires
        0 <= from <= pairs.len(),
    ensures
        from <= find_key(pairs, key, from) <= pairs.len(),
        forall|j: int| from <= j < find_key(pairs, key, from) ==> (#[trigger] pairs[j]).0 != key,
        find_key(pairs, key, from) < pairs.len() ==> pairs[find_key(pairs, key, from)].0 == key,
    decreases pairs.len() - from,
{
    if from < pairs.len() && pairs[from].0 != key {
        lemma_find_key(pairs, key, from + 1);
    }
}

/// The place that `find_key` finds is the first place of the key.
proof fn lemma_find_key_is(pairs: Seq<(Seq<char>, Seq<char>)>, key: Seq<char>, at: int)
    requires
        0 <= at <= pairs.len(),
        forall|j: int| 0 <= j < at ==> (#[trigger] pairs[j]).0 != key,
        at < pairs.len() ==> pairs[at].0 == key,
    ensures
        find_key(pairs, key, 0) == at,
{
    let found = find_key(pairs, key, 0);
    lemma_find_key(pairs, key, 0);
    if found < at {
        assert(pairs[found].0 != key);
    }
    if at < found {
        assert(pairs[at].0 != key);
    }
}

/// Giving a key a value keeps the keys distinct, and the key then has that
/// value while every other key has the value it had.
pub proof fn law_put(
    pairs: Seq<(Seq<char>, Seq<char>)>,
    key: Seq<char>,
    value: Seq<char>,
    other: Seq<char>,
)
    requires
        distinct_keys(pairs),
    ensures
        distinct_keys(put(pairs, key, value)),
        value_of(put(pairs, key, value), key) == Some(value),
        other != key ==> value_of(put(pairs, key, value), other) == value_of(pairs, other),
{
    let after = put(pairs, key, value);
    let at = find_key(pairs, key, 0);
    lemma_find_key(pairs, key, 0);
    assert forall|j: int| 0 <= j < pairs.len() implies (#[trigger] after[j]).0 == pairs[j].0 by {}
    assert forall|j: int| 0 <= j < at implies (#[trigger] after[j]).0 != key by {
        assert(pairs[j].0 != key);
    }
    lemma_find_key_is(after, key, at);
    assert forall|i: int, j: int| 0 <= i < j < after.len() implies (#[trigger] after[i]).0 != (
    #[trigger] after[j]).0 by {
        if j < pairs.len() {
            assert(pairs[i].0 != pairs[j].0);
        } else {
            assert(pairs[i].0 != key);
        }
    }
    if other != key {
        let was = find_key(pairs, other, 0);
        lemma_find_key(pairs, other, 0);
        assert forall|j: int| 0 <= j < was implies (#[trigger] after[j]).0 != other by {
            assert(pairs[j].0 != other);
        }
        if was < pairs.len() {
            lemma_find_key_is(after, other, was);
        } else {
            lemma_find_key_is(after, other, after.len() as int);
        }
    }
}

/// A map from text to text in the order in which its keys came.
#[derive(Debug, PartialEq, Eq)]
pub struct StringMap {
    entries: Vec<(String, String)>,
}

impl View for StringMap {
    type V = Seq<(Seq<char>, Seq<char>)>;

    closed spec fn view(&self) -> Seq<(Seq<char>, Seq<char>)> {
        pairs_view(self.entries@)
    }
}

impl Clone for StringMap {
    fn clone(&self) -> (copy: Self)
        ensures
            copy@ == self@,
    {
        proof {
            use_type_invariant(self);
        }
        let mut entries: Vec<(String, String)> = Vec::new();
        let mut at: usize = 0;
        while at < self.entries.len()
            invariant
                at <= self.entries.len(),
                entries@ == self.entries@.take(at as int),
            decreases self.entries.len() - at,
        {
            entries.push((self.entries[at].0.clone(), self.entries[at].1.clone()));
            assert(entries@ =~= self.entries@.take(at + 1));
            at += 1;
        }
        assert(self.entries@.take(at as int) =~= self.entries@);
        StringMap { entries }
    }
}

impl StringMap {
    #[verifier::type_invariant]
    spec fn keys_stand_once(&self) -> bool {
        distinct_keys(pairs_view(self.entries@))
    }

    /// The map without any key.
    pub fn new() -> (map: StringMap)
        ensures
            map@ == Seq::<(Seq<char>, Seq<char>)>::empty(),
    {
        let map = StringMap { entries: Vec::new() };
        assert(map@ =~= Seq::<(Seq<char>, Seq<char>)>::empty());
        map
    }

    /// The pairs in the order in which their keys came; no key stands twice.
    pub fn entries(&self) -> (entries: &Vec<(String, String)>)
        ensures
            pairs_view(entries@) == self@,
            distinct_keys(self@),
    {
        proof {
            use_type_invariant(self);
        }
        &self.entries
    }

    /// The value of `key`, if the map has the key.
    pub fn get(&self, key: &str) -> (value: Option<&String>)
        ensures
            match value_of(self@, key@) {
                Some(text) => value is Some && value->Some_0@ == text,
                None => value is None,
            },
    {
        let mut at: usize = 0;
        while at < self.entries.len()
            invariant
                at <= self.entries.len(),
                find_key(self@, key@, 0) == find_key(self@, key@, at as int),
            decreases self.entries.len() - at,
        {
            if str_eq(self.entries[at].0.as_str(), key) {
                return Some(&self.entries[at].1);
            }
            at += 1;
        }
        None
    }

    /// This map after `key` was given the value `value`.
    pub fn with(self, key: String, value: String) -> (map: StringMap)
        ensures
            map@ == put(self@, key@, value@),
    {
        proof {
            use_type_invariant(&self);
        }
        let ghost before = self@;
        let mut entries = self.entries;
        let mut at: usize = 0;
        while at < entries.len()
            invariant
                at <= entries.len(),
                before == self@,
                pairs_view(entries@) == before,
                distinct_keys(before),
                find_key(before, key@, 0) == find_key(before, key@, at as int),
            decreases entries.len() - at,
        {
            if str_eq(entries[at].0.as_str(), key.as_str()) {
                entries.set(at, (key, value));
                proof {
                    law_put(before, key@, value@, key@);
                    assert(pairs_view(entries@) =~= put(before, key@, value@));
                }
                return StringMap { entries };
            }
            at += 1;
        }
        entries.push((key, value));
        proof {
            law_put(before, key@, value@, key@);
            assert(pairs_view(entries@) =~= put(before, key@, value@));
        }
        StringMap { entries }
    }
}

} // verus!
