//! The key/value payload of a record.

use vstd::prelude::*;
use crate::value::{members_model, Json, Value};

verus! {

/// Some entry of `entries` has the key `key`.
pub open spec fn has_key(entries: Seq<(Seq<char>, Json)>, key: Seq<char>) -> bool {
    exists|i: int| 0 <= i < entries.len() && (#[trigger] entries[i]).0 == key
}

/// The place of an entry of `entries` that has the key `key`.
pub open spec fn key_index(entries: Seq<(Seq<char>, Json)>, key: Seq<char>) -> int {
    choose|i: int| 0 <= i < entries.len() && (#[trigger] entries[i]).0 == key
}

/// No key occurs twice in `entries`.
pub open spec fn distinct_keys(entries: Seq<(Seq<char>, Json)>) -> bool {
    forall|i: int, j: int|
        0 <= i < j < entries.len() ==> (#[trigger] entries[i]).0 != (#[trigger] entries[j]).0
}

/// `entries` after `value` is stored under `key`: the entry that has the key
/// takes the new value where it stands, and a new key goes to the end.
pub open spec fn inserted(entries: Seq<(Seq<char>, Json)>, key: Seq<char>, value: Json) -> Seq<
    (Seq<char>, Json),
> {
    if has_key(entries, key) {
        entries.update(key_index(entries, key), (key, value))
    } else {
        entries.push((key, value))
    }
}

/// `entries` after the first `count` of `pairs` are stored in turn.
pub open spec fn inserted_all(
    entries: Seq<(Seq<char>, Json)>,
    pairs: Seq<(Seq<char>, Json)>,
    count: nat,
) -> Seq<(Seq<char>, Json)>
    decreases count,
{
    if count == 0 || count > pairs.len() {
        entries
    } else {
        inserted(
            inserted_all(entries, pairs, (count - 1) as nat),
            pairs[count - 1].0,
            pairs[count - 1].1,
        )
    }
}

/// Where keys are distinct, an entry is found by its key at its own place.
pub proof fn lemma_key_index(entries: Seq<(Seq<char>, Json)>, at: int)
    requires
        distinct_keys(entries),
        0 <= at < entries.len(),
    ensures
        has_key(entries, entries[at].0),
        key_index(entries, entries[at].0) == at,
{
    let key = entries[at].0;
    let found = key_index(entries, key);
    assert(0 <= found < entries.len() && entries[found].0 == key);
    if found < at {
        assert(entries[found].0 != entries[at].0);
    } else if at < found {
        assert(entries[at].0 != entries[found].0);
    }
}

/// Storing a value keeps keys distinct, and the key then holds that value.
pub proof fn lemma_inserted(entries: Seq<(Seq<char>, Json)>, key: Seq<char>, value: Json)
    requires
        distinct_keys(entries),
    ensures
        distinct_keys(inserted(entries, key, value)),
        has_key(inserted(entries, key, value), key),
        inserted(entries, key, value)[key_index(inserted(entries, key, value), key)].1 == value,
        forall|other: Seq<char>|
            other != key ==> (has_key(inserted(entries, key, value), other) <==> has_key(
                entries,
                other,
            )),
{
    let after = inserted(entries, key, value);
    let at = if has_key(entries, key) {
        key_index(entries, key)
    } else {
        entries.len() as int
    };
    assert(0 <= at < after.len() && after[at] == (key, value));
    assert forall|i: int, j: int| 0 <= i < j < after.len() implies (#[trigger] after[i]).0 != (
    #[trigger] after[j]).0 by {
        if i != at && j != at {
            assert(entries[i].0 != entries[j].0);
        } else if has_key(entries, key) {
            let k = if i == at {
                j
            } else {
                i
            };
            if k < at {
                assert(entries[k].0 != entries[at].0);
            } else {
                assert(entries[at].0 != entries[k].0);
            }
        } else {
            assert(entries[i].0 != key);
        }
    }
    lemma_key_index(after, at);
    assert forall|other: Seq<char>| other != key implies (has_key(after, other) <==> has_key(
        entries,
        other,
    )) by {
        if has_key(after, other) {
            let i = key_index(after, other);
            assert(i != at);
            assert(entries[i].0 == other);
        }
        if has_key(entries, other) {
            let i = key_index(entries, other);
            assert(after[i].0 == other);
        }
    }
}

/// The fields of a record: values under string keys, no key twice. A key
/// that is stored again keeps its place and takes the new value.
#[derive(Debug, PartialEq, Eq)]
pub struct Fields {
    pub(crate) entries: Vec<(String, Value)>,
}

impl View for Fields {
    type V = Seq<(Seq<char>, Json)>;

    closed spec fn view(&self) -> Seq<(Seq<char>, Json)> {
        members_model(self.entries@)
    }
}

impl Fields {
    #[verifier::type_invariant]
    spec fn keys_are_distinct(&self) -> bool {
        distinct_keys(members_model(self.entries@))
    }

    /// No fields.
    pub fn new() -> (made: Fields)
        ensures
            made@ == Seq::<(Seq<char>, Json)>::empty(),
    {
        let made = Fields { entries: Vec::new() };
        assert(made@ =~= Seq::<(Seq<char>, Json)>::empty());
        made
    }

    /// The number of fields.
    pub fn len(&self) -> (count: usize)
        ensures
            count == self@.len(),
            distinct_keys(self@),
    {
        proof {
            use_type_invariant(self);
        }
        self.entries.len()
    }

    /// Whether there is no field.
    pub fn is_empty(&self) -> (empty: bool)
        ensures
            empty == (self@.len() == 0),
    {
        self.entries.len() == 0
    }

    /// The place of the field with the key `key`.
    fn position(&self, key: &String) -> (found: Option<usize>)
        ensures
            distinct_keys(self@),
            match found {
                Some(at) => at < self@.len() && has_key(self@, key@) && key_index(self@, key@)
                    == at,
                None => !has_key(self@, key@),
            },
    {
        proof {
            use_type_invariant(self);
        }
        let mut at: usize = 0;
        while at < self.entries.len()
            invariant
                at <= self.entries.len(),
                distinct_keys(self@),
                forall|i: int| 0 <= i < at ==> (#[trigger] self@[i]).0 != key@,
            decreases self.entries.len() - at,
        {
            if self.entries[at].0 == *key {
                proof {
                    lemma_key_index(self@, at as int);
                }
                return Some(at);
            }
            at += 1;
        }
        None
    }

    /// Whether a field with the key `key` is held.
    pub fn contains_key(&self, key: &str) -> (held: bool)
        ensures
            held == has_key(self@, key@),
    {
        let wanted = key.to_owned();
        self.position(&wanted).is_some()
    }

    /// The value under `key`.
    pub fn get(&self, key: &str) -> (found: Option<&Value>)
        ensures
            match found {
                Some(value) => has_key(self@, key@) && value@ == self@[key_index(self@, key@)].1,
                None => !has_key(self@, key@),
            },
    {
        let wanted = key.to_owned();
        match self.position(&wanted) {
            Some(at) => Some(&self.entries[at].1),
            None => None,
        }
    }

    /// Stores `value` under `key` and hands back the value that the key held
    /// before.
    pub fn insert(&mut self, key: String, value: Value) -> (before: Option<Value>)
        ensures
            final(self)@ == inserted(old(self)@, key@, value@),
            distinct_keys(final(self)@),
            match before {
                Some(previous) => has_key(old(self)@, key@) && previous@ == old(self)@[key_index(
                    old(self)@,
                    key@,
                )].1,
                None => !has_key(old(self)@, key@),
            },
    {
        let found = self.position(&key);
        proof {
            lemma_inserted(self@, key@, value@);
        }
        let ghost target = inserted(self@, key@, value@);
        let mut entries: Vec<(String, Value)> = Vec::new();
        std::mem::swap(&mut self.entries, &mut entries);
        let before = match found {
            Some(at) => {
                let previous = entries.remove(at);
                entries.insert(at, (key, value));
                Some(previous.1)
            },
            None => {
                entries.push((key, value));
                None
            },
        };
        assert(members_model(entries@) =~= target);
        std::mem::swap(&mut self.entries, &mut entries);
        before
    }

    /// The fields in their order, each a key and its value.
    pub fn entries(&self) -> (entries: &Vec<(String, Value)>)
        ensures
            members_model(entries@) == self@,
            distinct_keys(self@),
    {
        proof {
            use_type_invariant(self);
        }
        &self.entries
    }

    /// A copy of the fields, with the same model.
    pub fn duplicate(&self) -> (copy: Fields)
        ensures
            copy@ == self@,
    {
        proof {
            use_type_invariant(self);
        }
        let mut copies: Vec<(String, Value)> = Vec::new();
        let mut at: usize = 0;
        while at < self.entries.len()
            invariant
                at <= self.entries.len(),
                copies.len() == at,
                forall|i: int|
                    0 <= i < at ==> (#[trigger] copies@[i]).0@ == self.entries@[i].0@
                        && copies@[i].1@ == self.entries@[i].1@,
            decreases self.entries.len() - at,
        {
            let key = self.entries[at].0.clone();
            let value = self.entries[at].1.duplicate();
            copies.push((key, value));
            at += 1;
        }
        assert(members_model(copies@) =~= members_model(self.entries@));
        Fields { entries: copies }
    }
}

impl Clone for Fields {
    fn clone(&self) -> (copy: Fields)
        ensures
            copy@ == self@,
    {
        self.duplicate()
    }
}

} // verus!
