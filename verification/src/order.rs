//! The order of texts, and lists of entries that are kept in the order of
//! their keys.

use vstd::prelude::*;
use vstd::std_specs::iter::IteratorSpec;
use crate::name::Name;
use crate::value::{ConstValue, EntryView, ValueView};
use crate::variables::{entry_of, Variables};

verus! {

/// Whether `a` comes before `b` in the order of texts: at the first place
/// where they differ, `a` has the character with the lower code point, or
/// has ended.
pub open spec fn text_lt(a: Seq<char>, b: Seq<char>) -> bool
    decreases a.len(),
{
    if b.len() == 0 {
        false
    } else if a.len() == 0 {
        true
    } else if a[0] != b[0] {
        a[0] < b[0]
    } else {
        text_lt(a.drop_first(), b.drop_first())
    }
}

/// No text comes before itself.
pub proof fn lemma_text_lt_irreflexive(a: Seq<char>)
    ensures
        !text_lt(a, a),
    decreases a.len(),
{
    if a.len() > 0 {
        lemma_text_lt_irreflexive(a.drop_first());
    }
}

/// Of two different texts, one comes before the other.
pub proof fn lemma_text_lt_total(a: Seq<char>, b: Seq<char>)
    ensures
        text_lt(a, b) || text_lt(b, a) || a == b,
        !(text_lt(a, b) && text_lt(b, a)),
    decreases a.len(),
{
    if a.len() > 0 && b.len() > 0 {
        if a[0] == b[0] {
            lemma_text_lt_total(a.drop_first(), b.drop_first());
            if a.drop_first() == b.drop_first() {
                assert(a =~= seq![a[0]] + a.drop_first());
                assert(b =~= seq![b[0]] + b.drop_first());
            }
        }
    } else if a.len() == 0 && b.len() == 0 {
        assert(a =~= b);
    }
}

/// The order of texts is transitive.
pub proof fn lemma_text_lt_transitive(a: Seq<char>, b: Seq<char>, c: Seq<char>)
    requires
        text_lt(a, b),
        text_lt(b, c),
    ensures
        text_lt(a, c),
    decreases a.len(),
{
    if a.len() > 0 && a[0] == b[0] && b[0] == c[0] {
        lemma_text_lt_transitive(a.drop_first(), b.drop_first(), c.drop_first());
    }
}

/// Whether `a` comes before `b` in the order of texts.
pub fn text_less(a: &str, b: &str) -> (r: bool)
    ensures
        r == text_lt(a@, b@),
{
    let mut x = a.chars();
    let mut y = b.chars();
    let ghost mut n: int = 0;
    loop
        invariant
            0 <= n <= a@.len(),
            n <= b@.len(),
            x.remaining() == a@.skip(n),
            y.remaining() == b@.skip(n),
            text_lt(a@, b@) == text_lt(a@.skip(n), b@.skip(n)),
        decreases a@.len() - n,
    {
        let ghost rest_a = a@.skip(n);
        let ghost rest_b = b@.skip(n);
        match (x.next(), y.next()) {
            (_, None) => {
                return false;
            },
            (None, Some(_)) => {
                return true;
            },
            (Some(c), Some(d)) => {
                assert(c == rest_a[0] && d == rest_b[0]);
                if c != d {
                    return c < d;
                }
                proof {
                    assert(rest_a.drop_first() =~= a@.skip(n + 1));
                    assert(rest_b.drop_first() =~= b@.skip(n + 1));
                    assert(x.remaining() =~= a@.skip(n + 1));
                    assert(y.remaining() =~= b@.skip(n + 1));
                    n = n + 1;
                }
            },
        }
    }
}

/// Whether the keys of `entries` come in their order, each before the next;
/// no key then occurs twice.
pub open spec fn ordered(entries: Seq<EntryView>) -> bool {
    forall|i: int, j: int|
        0 <= i < j < entries.len() ==> text_lt((#[trigger] entries[i]).key, (#[trigger] entries[j]).key)
}

/// The mathematical model of a list of entries.
pub open spec fn entries_view(entries: Seq<(Name, ConstValue)>) -> Seq<EntryView> {
    Seq::new(entries.len(), |i: int| EntryView { key: entries[i].0@, value: entries[i].1@ })
}

/// An object is modelled by the models of its entries.
pub proof fn lemma_object_view(entries: Vec<(Name, ConstValue)>)
    ensures
        ConstValue::Object(entries)@ == ValueView::Object(entries_view(entries@)),
{
    assert(ConstValue::Object(entries)@->Object_0 =~= entries_view(entries@));
}

/// In an ordered list a key leads to the entry that holds it, and a key
/// that no entry holds leads to nothing.
pub proof fn lemma_entry_of_ordered(entries: Seq<EntryView>, key: Seq<char>)
    requires
        ordered(entries),
    ensures
        forall|i: int|
            0 <= i < entries.len() && (#[trigger] entries[i]).key == key ==> entry_of(entries, key)
                == Some(entries[i].value),
        (forall|i: int| 0 <= i < entries.len() ==> (#[trigger] entries[i]).key != key)
            ==> entry_of(entries, key) is None,
    decreases entries.len(),
{
    if entries.len() > 0 {
        let rest = entries.drop_first();
        assert forall|i: int, j: int| 0 <= i < j < rest.len() implies text_lt(
            (#[trigger] rest[i]).key,
            (#[trigger] rest[j]).key,
        ) by {
            assert(rest[i] == entries[i + 1] && rest[j] == entries[j + 1]);
        }
        lemma_entry_of_ordered(rest, key);
        assert forall|i: int| 0 <= i < entries.len() && (#[trigger] entries[i]).key
            == key implies entry_of(entries, key) == Some(entries[i].value) by {
            if i > 0 {
                assert(rest[i - 1] == entries[i]);
                if entries[0].key == key {
                    lemma_text_lt_irreflexive(key);
                    assert(text_lt(entries[0].key, entries[i].key));
                }
            }
        }
        if forall|i: int| 0 <= i < entries.len() ==> (#[trigger] entries[i]).key != key {
            assert forall|i: int| 0 <= i < rest.len() implies (#[trigger] rest[i]).key != key by {
                assert(rest[i] == entries[i + 1]);
            }
        }
    }
}

/// `entries` with `value` in place of the value of the first entry whose
/// key is `key`; `entries` as they are if there is no such entry.
pub open spec fn entry_put(entries: Seq<EntryView>, key: Seq<char>, value: ValueView) -> Seq<
    EntryView,
>
    decreases entries.len(),
{
    if entries.len() == 0 {
        entries
    } else if entries[0].key == key {
        entries.update(0, EntryView { key, value })
    } else {
        seq![entries[0]] + entry_put(entries.drop_first(), key, value)
    }
}

/// After a value was put under a key that has an entry, the key leads to
/// that value.
pub proof fn lemma_entry_of_put(entries: Seq<EntryView>, key: Seq<char>, value: ValueView)
    requires
        entry_of(entries, key) is Some,
    ensures
        entry_of(entry_put(entries, key, value), key) == Some(value),
    decreases entries.len(),
{
    if entries.len() > 0 && entries[0].key != key {
        lemma_entry_of_put(entries.drop_first(), key, value);
        let rest = entry_put(entries.drop_first(), key, value);
        assert((seq![entries[0]] + rest).drop_first() =~= rest);
    }
}

/// The first entry that holds a key is the one that the key leads to, and
/// the one whose value a put replaces.
pub proof fn lemma_entry_put_at(entries: Seq<EntryView>, key: Seq<char>, value: ValueView, i: int)
    requires
        0 <= i < entries.len(),
        entries[i].key == key,
        forall|j: int| 0 <= j < i ==> (#[trigger] entries[j]).key != key,
    ensures
        entry_of(entries, key) == Some(entries[i].value),
        entry_put(entries, key, value) == entries.update(i, EntryView { key, value }),
    decreases i,
{
    if i > 0 {
        let rest = entries.drop_first();
        assert(rest[i - 1] == entries[i]);
        assert forall|j: int| 0 <= j < i - 1 implies (#[trigger] rest[j]).key != key by {
            assert(rest[j] == entries[j + 1]);
        }
        lemma_entry_put_at(rest, key, value, i - 1);
        assert(seq![entries[0]] + rest.update(i - 1, EntryView { key, value }) =~= entries.update(
            i,
            EntryView { key, value },
        ));
    }
}

/// Putting the value that a key leads to changes nothing.
pub proof fn lemma_entry_put_same(entries: Seq<EntryView>, key: Seq<char>, same: ValueView)
    requires
        entry_of(entries, key) == Some(same),
    ensures
        entry_put(entries, key, same) == entries,
    decreases entries.len(),
{
    if entries.len() > 0 {
        if entries[0].key == key {
            assert(entries.update(0, EntryView { key, value: same }) =~= entries);
        } else {
            lemma_entry_put_same(entries.drop_first(), key, same);
            assert(seq![entries[0]] + entries.drop_first() =~= entries);
        }
    }
}

/// A key that no entry holds leads to nothing.
pub proof fn lemma_entry_of_none(entries: Seq<EntryView>, key: Seq<char>)
    requires
        forall|j: int| 0 <= j < entries.len() ==> (#[trigger] entries[j]).key != key,
    ensures
        entry_of(entries, key) is None,
    decreases entries.len(),
{
    if entries.len() > 0 {
        let rest = entries.drop_first();
        assert forall|j: int| 0 <= j < rest.len() implies (#[trigger] rest[j]).key != key by {
            assert(rest[j] == entries[j + 1]);
        }
        lemma_entry_of_none(rest, key);
    }
}

/// A put under one key leaves what every other key leads to.
pub proof fn lemma_entry_of_put_other(
    entries: Seq<EntryView>,
    key: Seq<char>,
    value: ValueView,
    other: Seq<char>,
)
    requires
        other != key,
    ensures
        entry_of(entry_put(entries, key, value), other) == entry_of(entries, other),
    decreases entries.len(),
{
    if entries.len() > 0 && entries[0].key != key {
        lemma_entry_of_put_other(entries.drop_first(), key, value, other);
        let rest = entry_put(entries.drop_first(), key, value);
        assert((seq![entries[0]] + rest).drop_first() =~= rest);
    } else if entries.len() > 0 {
        assert(entries.update(0, EntryView { key, value }).drop_first() =~= entries.drop_first());
    }
}

/// A new entry, put at any place among entries that do not hold its key, is
/// the one that its key leads to, and leaves what every other key leads to.
pub proof fn lemma_entry_of_insert(entries: Seq<EntryView>, place: int, entry: EntryView)
    requires
        0 <= place <= entries.len(),
        forall|j: int| 0 <= j < entries.len() ==> (#[trigger] entries[j]).key != entry.key,
    ensures
        entry_of(entries.insert(place, entry), entry.key) == Some(entry.value),
        forall|other: Seq<char>|
            other != entry.key ==> entry_of(entries.insert(place, entry), other) == entry_of(
                entries,
                other,
            ),
    decreases place,
{
    let after = entries.insert(place, entry);
    if place == 0 {
        assert(after.drop_first() =~= entries);
        assert forall|other: Seq<char>| other != entry.key implies entry_of(after, other)
            == entry_of(entries, other) by {}
    } else {
        let rest = entries.drop_first();
        assert forall|j: int| 0 <= j < rest.len() implies (#[trigger] rest[j]).key != entry.key by {
            assert(rest[j] == entries[j + 1]);
        }
        lemma_entry_of_insert(rest, place - 1, entry);
        assert(after.drop_first() =~= rest.insert(place - 1, entry));
        assert(after[0] == entries[0]);
        assert forall|other: Seq<char>| other != entry.key implies entry_of(after, other)
            == entry_of(entries, other) by {
            assert(entry_of(rest.insert(place - 1, entry), other) == entry_of(rest, other));
        }
    }
}

/// The place of the first of `entries` whose key is `key`.
pub fn entry_position(entries: &Vec<(Name, ConstValue)>, key: &str) -> (r: Option<usize>)
    ensures
        match r {
            Some(i) => i < entries@.len() && entries@[i as int].0@ == key@ && forall|j: int|
                0 <= j < i ==> (#[trigger] entries@[j]).0@ != key@,
            None => forall|j: int| 0 <= j < entries@.len() ==> (#[trigger] entries@[j]).0@ != key@,
        },
{
    let mut i: usize = 0;
    while i < entries.len()
        invariant
            i <= entries.len(),
            forall|j: int| 0 <= j < i ==> (#[trigger] entries@[j]).0@ != key@,
        decreases entries.len() - i,
    {
        if entries[i].0.eq_str(key) {
            return Some(i);
        }
        i += 1;
    }
    None
}

/// Whether the keys of `entries` come in their order, each before the next.
pub fn entries_ordered(entries: &Vec<(Name, ConstValue)>) -> (r: bool)
    ensures
        r == ordered(entries_view(entries@)),
{
    let ghost view = entries_view(entries@);
    if entries.len() < 2 {
        return true;
    }
    let mut i: usize = 1;
    while i < entries.len()
        invariant
            1 <= i <= entries@.len(),
            view == entries_view(entries@),
            forall|a: int, b: int|
                0 <= a < b < i ==> text_lt((#[trigger] view[a]).key, (#[trigger] view[b]).key),
        decreases entries@.len() - i,
    {
        if !text_less(entries[i - 1].0.as_str(), entries[i].0.as_str()) {
            assert(!text_lt(view[i - 1].key, view[i as int].key));
            return false;
        }
        proof {
            assert forall|a: int, b: int| 0 <= a < b < i + 1 implies text_lt(
                (#[trigger] view[a]).key,
                (#[trigger] view[b]).key,
            ) by {
                if b == i && a < i - 1 {
                    lemma_text_lt_transitive(view[a].key, view[i - 1].key, view[i as int].key);
                }
            }
        }
        i += 1;
    }
    true
}

/// Puts `value` under `key` into a list of entries: in place of the value
/// of the first entry that holds the key, which is returned, or, where no
/// entry holds it, before the first entry whose key does not come before
/// `key`. A list that was in the order of its keys stays in that order.
pub fn insert_entry(entries: &mut Vec<(Name, ConstValue)>, key: Name, value: ConstValue) -> (r:
    Option<ConstValue>)
    ensures
        ordered(entries_view(old(entries)@)) ==> ordered(entries_view(final(entries)@)),
        entry_of(entries_view(final(entries)@), key@) == Some(value@),
        forall|other: Seq<char>|
            other != key@ ==> entry_of(entries_view(final(entries)@), other) == entry_of(
                entries_view(old(entries)@),
                other,
            ),
        match entry_of(entries_view(old(entries)@), key@) {
            Some(previous) => r is Some && r->Some_0@ == previous && final(entries)@.len() == old(
                entries,
            )@.len(),
            None => r is None && final(entries)@.len() == old(entries)@.len() + 1,
        },
{
    let ghost before = entries_view(entries@);
    let ghost k = key@;
    let ghost v = value@;
    match entry_position(entries, key.as_str()) {
        Some(i) => {
            proof {
                assert forall|j: int| 0 <= j < i implies (#[trigger] before[j]).key != k by {
                    assert(before[j].key == entries@[j].0@);
                }
                lemma_entry_put_at(before, k, v, i as int);
                lemma_entry_of_put(before, k, v);
                assert forall|other: Seq<char>| other != k implies entry_of(
                    entry_put(before, k, v),
                    other,
                ) == entry_of(before, other) by {
                    lemma_entry_of_put_other(before, k, v, other);
                }
            }
            let mut taken: Vec<(Name, ConstValue)> = Vec::new();
            std::mem::swap(entries, &mut taken);
            let old_entry = taken.remove(i);
            taken.insert(i, (key, value));
            std::mem::swap(entries, &mut taken);
            proof {
                let after = entries_view(entries@);
                assert(after =~= before.update(i as int, EntryView { key: k, value: v }));
                if ordered(before) {
                    assert forall|a: int, b: int| 0 <= a < b < after.len() implies text_lt(
                        (#[trigger] after[a]).key,
                        (#[trigger] after[b]).key,
                    ) by {
                        assert(after[a].key == before[a].key);
                        assert(after[b].key == before[b].key);
                    }
                }
            }
            Some(old_entry.1)
        },
        None => {
            let mut p: usize = 0;
            while p < entries.len() && text_less(entries[p].0.as_str(), key.as_str())
                invariant
                    p <= entries@.len(),
                    entries@ == old(entries)@,
                    before == entries_view(entries@),
                    forall|i: int| 0 <= i < p ==> text_lt(#[trigger] before[i].key, key@),
                decreases entries@.len() - p,
            {
                p += 1;
            }
            proof {
                assert forall|j: int| 0 <= j < before.len() implies (#[trigger] before[j]).key
                    != k by {
                    assert(before[j].key == entries@[j].0@);
                }
                lemma_entry_of_none(before, k);
                lemma_entry_of_insert(before, p as int, EntryView { key: k, value: v });
            }
            entries.insert(p, (key, value));
            proof {
                let after = entries_view(entries@);
                assert(after =~= before.insert(p as int, EntryView { key: k, value: v }));
                if ordered(before) {
                    if p < before.len() {
                        lemma_text_lt_total(before[p as int].key, k);
                    }
                    assert forall|a: int, b: int| 0 <= a < b < after.len() implies text_lt(
                        (#[trigger] after[a]).key,
                        (#[trigger] after[b]).key,
                    ) by {
                        if b < p {
                            assert(text_lt(before[a].key, before[b].key));
                        } else if b == p {
                            assert(text_lt(before[a].key, k));
                        } else if a < p {
                            assert(text_lt(before[a].key, before[b - 1].key));
                        } else if a == p {
                            if b - 1 > p {
                                assert(text_lt(before[p as int].key, before[b - 1].key));
                                lemma_text_lt_transitive(k, before[p as int].key, before[b - 1].key);
                            }
                        } else {
                            assert(text_lt(before[a - 1].key, before[b - 1].key));
                        }
                    }
                }
            }
            None
        },
    }
}

/// Whether every object in `v`, at any depth, keeps its entries in the
/// order of their keys.
pub open spec fn objects_ordered(v: ValueView) -> bool
    decreases v,
{
    match v {
        ValueView::List(items) => forall|i: int|
            0 <= i < items.len() ==> objects_ordered(#[trigger] items[i]),
        ValueView::Object(entries) => ordered(entries) && forall|i: int|
            0 <= i < entries.len() ==> objects_ordered((#[trigger] entries[i]).value),
        _ => true,
    }
}

/// The last of `pairs` that stands under `key`.
pub open spec fn last_under(pairs: Seq<EntryView>, key: Seq<char>) -> Option<ValueView>
    decreases pairs.len(),
{
    if pairs.len() == 0 {
        None
    } else if pairs.last().key == key {
        Some(pairs.last().value)
    } else {
        last_under(pairs.drop_last(), key)
    }
}

/// The entries that hold `pairs` in the order of their keys. Where a key
/// occurs more than once, the last of its values stays.
pub fn ordered_entries(pairs: Vec<(Name, ConstValue)>) -> (r: Vec<(Name, ConstValue)>)
    ensures
        ordered(entries_view(r@)),
        forall|key: Seq<char>|
            entry_of(entries_view(r@), key) == last_under(entries_view(pairs@), key),
{
    let ghost all = entries_view(pairs@);
    let ghost before = pairs@;
    let mut rest = crate::text::reversed(pairs);
    let mut out: Vec<(Name, ConstValue)> = Vec::new();
    let ghost mut done: int = 0;
    assert(all.take(0) =~= Seq::<EntryView>::empty());
    while rest.len() > 0
        invariant
            all == entries_view(before),
            0 <= done <= before.len(),
            rest@.len() + done == before.len(),
            forall|j: int| 0 <= j < rest@.len() ==> rest@[j] == before[before.len() - 1 - j],
            ordered(entries_view(out@)),
            forall|key: Seq<char>|
                entry_of(entries_view(out@), key) == last_under(all.take(done), key),
        decreases rest@.len(),
    {
        let (key, value) = rest.pop().unwrap();
        proof {
            let now = all.take(done + 1);
            assert(now.drop_last() =~= all.take(done));
            assert(now.last() == all[done]);
            assert(all[done] == (EntryView { key: key@, value: value@ }));
        }
        insert_entry(&mut out, key, value);
        proof {
            done = done + 1;
        }
    }
    assert(all.take(done) =~= all);
    out
}

impl ConstValue {
    /// The object that holds `pairs`, in the order of their keys. Where a
    /// key occurs more than once, the last of its values stays.
    pub fn object(pairs: Vec<(Name, ConstValue)>) -> (r: ConstValue)
        ensures
            r@ is Object,
            ordered(r@->Object_0),
            forall|key: Seq<char>|
                entry_of(r@->Object_0, key) == last_under(entries_view(pairs@), key),
    {
        let entries = ordered_entries(pairs);
        proof {
            lemma_object_view(entries);
        }
        ConstValue::Object(entries)
    }
}

impl Variables {
    /// Gives the variable `name` the value `value`, in place of the value
    /// that it had, which is returned. Variables that were in the order of
    /// their names stay in that order.
    pub fn insert(&mut self, name: Name, value: ConstValue) -> (r: Option<ConstValue>)
        ensures
            ordered(old(self)@) ==> ordered(final(self)@),
            entry_of(final(self)@, name@) == Some(value@),
            forall|other: Seq<char>|
                other != name@ ==> entry_of(final(self)@, other) == entry_of(old(self)@, other),
            match entry_of(old(self)@, name@) {
                Some(previous) => r is Some && r->Some_0@ == previous,
                None => r is None,
            },
    {
        proof {
            lemma_object_view(self.0);
        }
        let r = insert_entry(&mut self.0, name, value);
        proof {
            lemma_object_view(self.0);
        }
        r
    }
}

} // verus!
