//! A store of request-scoped data, one value for each type of data.

use vstd::prelude::*;
use crate::error::Error;
use crate::text::{push_text, str_eq};

verus! {

/// Whether the entry of `entries` at `i` stands under the descriptor `key`.
pub open spec fn stands_under<V>(entries: Seq<(String, V)>, i: int, key: Seq<char>) -> bool {
    0 <= i < entries.len() && entries[i].0@ == key
}

/// Whether no two of `entries` stand under the same descriptor.
pub open spec fn distinct_keys<V>(entries: Seq<(String, V)>) -> bool {
    forall|i: int, j: int|
        0 <= i < entries.len() && 0 <= j < entries.len() && (#[trigger] entries[i]).0@ == (
        #[trigger] entries[j]).0@ ==> i == j
}

/// What `entries` hold, as a map from descriptors to values.
pub open spec fn entries_map<V>(entries: Seq<(String, V)>) -> Map<Seq<char>, V> {
    Map::new(
        |key: Seq<char>| exists|i: int| stands_under(entries, i, key),
        |key: Seq<char>| entries[choose|i: int| stands_under(entries, i, key)].1,
    )
}

/// A store that holds at most one value for each type of data. A type is
/// told by its descriptor, a string that stands for that type alone; a value
/// that is stored under a descriptor is found under that descriptor and under
/// no other.
pub struct Data<V> {
    entries: Vec<(String, V)>,
}

impl<V> View for Data<V> {
    type V = Map<Seq<char>, V>;

    closed spec fn view(&self) -> Map<Seq<char>, V> {
        entries_map(self.entries@)
    }
}

impl<V> Data<V> {
    #[verifier::type_invariant]
    spec fn well_formed(self) -> bool {
        distinct_keys(self.entries@)
    }

    /// A store that holds nothing.
    pub fn new() -> (r: Self)
        ensures
            r@ == Map::<Seq<char>, V>::empty(),
    {
        let r = Data { entries: Vec::new() };
        assert(r@ =~= Map::<Seq<char>, V>::empty());
        r
    }

    fn position(&self, key: &str) -> (r: Option<usize>)
        ensures
            match r {
                Some(i) => stands_under(self.entries@, i as int, key@),
                None => forall|i: int| !stands_under(self.entries@, i, key@),
            },
    {
        let mut i: usize = 0;
        while i < self.entries.len()
            invariant
                i <= self.entries.len(),
                forall|j: int| 0 <= j < i ==> !stands_under(self.entries@, j, key@),
            decreases self.entries.len() - i,
        {
            if str_eq(self.entries[i].0.as_str(), key) {
                return Some(i);
            }
            i += 1;
        }
        None
    }

    /// Stores `data` under the descriptor `key`, in place of what was stored
    /// under it before.
    pub fn insert(&mut self, key: String, data: V)
        ensures
            final(self)@ == old(self)@.insert(key@, data),
    {
        proof {
            use_type_invariant(&*self);
        }
        let ghost before = self.entries@;
        let found = self.position(key.as_str());
        let mut taken = Data { entries: Vec::new() };
        std::mem::swap(self, &mut taken);
        let Data { entries } = taken;
        let mut entries = entries;
        match found {
            Some(i) => {
                entries.set(i, (key, data));
                proof {
                    let after = entries@;
                    assert forall|k: Seq<char>, j: int|
                        stands_under(after, j, k) <==> stands_under(before, j, k) by {}
                    assert forall|a: int, b: int|
                        0 <= a < after.len() && 0 <= b < after.len() && (#[trigger] after[a]).0@
                            == (#[trigger] after[b]).0@ implies a == b by {
                        assert(before[a].0@ == after[a].0@);
                        assert(before[b].0@ == after[b].0@);
                    }
                    assert forall|k: Seq<char>| #[trigger]
                        entries_map(after).contains_key(k) implies entries_map(after)[k]
                        == entries_map(before).insert(key@, data)[k] by {
                        let a = choose|j: int| stands_under(after, j, k);
                        let b = choose|j: int| stands_under(before, j, k);
                        assert(stands_under(before, a, k));
                        assert(stands_under(before, b, k));
                        assert(a == b);
                        if k == key@ {
                            assert(stands_under(before, i as int, k));
                            assert(a == i);
                        }
                    }
                    assert forall|k: Seq<char>|
                        entries_map(after).contains_key(k) <==> entries_map(before).insert(
                            key@,
                            data,
                        ).contains_key(k) by {
                        if k == key@ {
                            assert(stands_under(after, i as int, k));
                        }
                    }
                    assert(entries_map(after) =~= entries_map(before).insert(key@, data));
                }
            },
            None => {
                entries.push((key, data));
                proof {
                    let after = entries@;
                    let n = before.len() as int;
                    assert(stands_under(after, n, key@));
                    assert forall|k: Seq<char>, j: int|
                        stands_under(after, j, k) <==> (stands_under(before, j, k) || (j == n && k
                            == key@)) by {}
                    assert forall|a: int, b: int|
                        0 <= a < after.len() && 0 <= b < after.len() && (#[trigger] after[a]).0@
                            == (#[trigger] after[b]).0@ implies a == b by {
                        if a < n {
                            assert(stands_under(before, a, before[a].0@));
                        }
                        if b < n {
                            assert(stands_under(before, b, before[b].0@));
                        }
                    }
                    assert forall|k: Seq<char>| #[trigger]
                        entries_map(after).contains_key(k) implies entries_map(after)[k]
                        == entries_map(before).insert(key@, data)[k] by {
                        let a = choose|j: int| stands_under(after, j, k);
                        assert(stands_under(after, a, k));
                        if k == key@ {
                            assert(!stands_under(before, a, k));
                            assert(a == n);
                        } else {
                            let b = choose|j: int| stands_under(before, j, k);
                            assert(stands_under(before, a, k));
                            assert(stands_under(before, b, k));
                            assert(a == b);
                        }
                    }
                    assert forall|k: Seq<char>|
                        entries_map(after).contains_key(k) <==> entries_map(before).insert(
                            key@,
                            data,
                        ).contains_key(k) by {
                        if entries_map(after).contains_key(k) {
                            let a = choose|j: int| stands_under(after, j, k);
                            assert(stands_under(after, a, k));
                        }
                        if entries_map(before).contains_key(k) {
                            let b = choose|j: int| stands_under(before, j, k);
                            assert(stands_under(after, b, k));
                        }
                    }
                    assert(entries_map(after) =~= entries_map(before).insert(key@, data));
                }
            },
        }
        *self = Data { entries };
    }

    /// The value stored under the descriptor `key`, if there is one.
    pub fn get(&self, key: &str) -> (r: Option<&V>)
        ensures
            match r {
                Some(data) => self@.contains_key(key@) && *data == self@[key@],
                None => !self@.contains_key(key@),
            },
    {
        proof {
            use_type_invariant(self);
        }
        match self.position(key) {
            Some(i) => {
                proof {
                    let a = choose|j: int| stands_under(self.entries@, j, key@);
                    assert(stands_under(self.entries@, i as int, key@));
                    assert(stands_under(self.entries@, a, key@));
                    assert(a == i);
                }
                Some(&self.entries[i].1)
            },
            None => None,
        }
    }

    /// Whether a value is stored under the descriptor `key`.
    pub fn contains(&self, key: &str) -> (r: bool)
        ensures
            r == self@.contains_key(key@),
    {
        self.get(key).is_some()
    }
}

/// The value that a lookup through both scopes finds under `key`: the one of
/// the query if it holds one, else the one of the schema.
pub open spec fn scoped<V>(query: Map<Seq<char>, V>, schema: Map<Seq<char>, V>, key: Seq<char>)
    -> Option<V> {
    if query.contains_key(key) {
        Some(query[key])
    } else if schema.contains_key(key) {
        Some(schema[key])
    } else {
        None
    }
}

/// Looks `key` up in the data of the query first, then in the data of the
/// schema.
pub fn lookup_scoped<'a, V>(query: &'a Data<V>, schema: &'a Data<V>, key: &str) -> (r: Option<
    &'a V,
>)
    ensures
        match scoped(query@, schema@, key@) {
            Some(data) => r == Some(&data),
            None => r is None,
        },
{
    match query.get(key) {
        Some(data) => Some(data),
        None => schema.get(key),
    }
}

/// The message for data that is not there: ``Data `<key>` does not exist.``
pub open spec fn missing_data_text(key: Seq<char>) -> Seq<char> {
    "Data `"@ + key + "` does not exist."@
}

/// The error for data that is not there.
pub fn missing_data(key: &str) -> (r: Error)
    ensures
        r.message@ == missing_data_text(key@),
{
    let mut message = String::new();
    push_text(&mut message, "Data `");
    push_text(&mut message, key);
    push_text(&mut message, "` does not exist.");
    assert(message@ =~= missing_data_text(key@));
    Error::new(message)
}

/// Where data was stored at the scope of the schema and other data under the
/// same descriptor at the scope of the query, a lookup through both scopes
/// finds the data of the query.
pub proof fn lemma_query_scope_wins<V>(
    schema: Map<Seq<char>, V>,
    query: Map<Seq<char>, V>,
    key: Seq<char>,
    at_schema: V,
    at_query: V,
)
    ensures
        scoped(query.insert(key, at_query), schema.insert(key, at_schema), key) == Some(at_query),
{
}

} // verus!
