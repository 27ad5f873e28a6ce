//! Paths into the variables of a query, such as `variables.files.0`.

use vstd::prelude::*;
use crate::text::{chars_of, parse_unsigned, string_of, unsigned_of};
use crate::value::{ConstValue, EntryView, ValueView};
use crate::order::{
    entries_view, entry_position, entry_put, lemma_entry_of_none, lemma_entry_of_put,
    lemma_entry_put_at, lemma_entry_put_same, lemma_object_view,
};
use crate::variables::{entry_of, Variables};

verus! {

/// The parts of `s` that its dots separate: one more than it has dots.
pub open spec fn parts(s: Seq<char>) -> Seq<Seq<char>>
    decreases s.len(),
{
    if s.len() == 0 {
        seq![Seq::empty()]
    } else if s[0] == '.' {
        seq![Seq::empty()] + parts(s.drop_first())
    } else {
        let rest = parts(s.drop_first());
        rest.update(0, seq![s[0]] + rest[0])
    }
}

/// The index that `part` spells: decimal digits, after a `+` or not, that
/// spell a number below 2 to the power of 32.
pub open spec fn index_of(part: Seq<char>) -> Option<nat> {
    unsigned_of(part, 0xffff_ffff)
}

/// The value that `value` holds under `part`: the item of a list at the
/// index that `part` spells, the value of an object under the key `part`,
/// nothing in any other value.
pub open spec fn step(value: ValueView, part: Seq<char>) -> Option<ValueView> {
    match value {
        ValueView::List(items) => match index_of(part) {
            Some(index) => if index < items.len() {
                Some(items[index as int])
            } else {
                None
            },
            None => None,
        },
        ValueView::Object(entries) => entry_of(entries, part),
        _ => None,
    }
}

/// The value that is reached from `value` by following `path`, part by
/// part.
pub open spec fn reached(value: ValueView, path: Seq<Seq<char>>) -> Option<ValueView>
    decreases path.len(),
{
    if path.len() == 0 {
        Some(value)
    } else {
        match step(value, path[0]) {
            Some(below) => reached(below, path.drop_first()),
            None => None,
        }
    }
}

/// The value in `variables` that `path` names.
///
/// A path starts with `variables.`; what follows are parts separated by
/// dots. The first part is the name of a variable, and each further part
/// leads into the value that was reached: into a list by an index, into an
/// object by a key.
pub open spec fn path_value(variables: Seq<EntryView>, path: Seq<char>) -> Option<ValueView> {
    let prefix = "variables."@;
    if path.len() >= prefix.len() && path.take(prefix.len() as int) == prefix {
        let names = parts(path.skip(prefix.len() as int));
        match entry_of(variables, names[0]) {
            Some(value) => reached(value, names.drop_first()),
            None => None,
        }
    } else {
        None
    }
}

/// There is always a first part.
pub proof fn lemma_parts_len(s: Seq<char>)
    ensures
        parts(s).len() >= 1,
    decreases s.len(),
{
    if s.len() > 0 {
        lemma_parts_len(s.drop_first());
    }
}

/// Finds the end of the part of `chars` that starts at `start`, and tells
/// whether a dot follows it.
fn part_end(chars: &Vec<char>, start: usize) -> (r: (usize, bool))
    requires
        start <= chars@.len(),
    ensures
        start <= r.0 <= chars@.len(),
        r.1 ==> r.0 < chars@.len(),
        !r.1 ==> r.0 == chars@.len(),
        parts(chars@.skip(start as int)) == if r.1 {
            seq![chars@.subrange(start as int, r.0 as int)] + parts(chars@.skip(r.0 as int + 1))
        } else {
            seq![chars@.subrange(start as int, r.0 as int)]
        },
{
    let ghost s = chars@;
    let mut k: usize = start;
    proof {
        lemma_parts_len(s.skip(start as int));
        assert(s.subrange(start as int, start as int) + parts(s.skip(start as int))[0] =~= parts(
            s.skip(start as int),
        )[0]);
        assert(parts(s.skip(start as int)).update(0, parts(s.skip(start as int))[0]) =~= parts(
            s.skip(start as int),
        ));
    }
    while k < chars.len() && chars[k] != '.'
        invariant
            start <= k <= chars@.len(),
            s == chars@,
            parts(s.skip(start as int)) == parts(s.skip(k as int)).update(
                0,
                s.subrange(start as int, k as int) + parts(s.skip(k as int))[0],
            ),
        decreases chars@.len() - k,
    {
        proof {
            let here = s.skip(k as int);
            let rest = parts(s.skip(k as int + 1));
            lemma_parts_len(s.skip(k as int + 1));
            assert(here.drop_first() =~= s.skip(k as int + 1));
            assert(here[0] == s[k as int]);
            assert(parts(here) == rest.update(0, seq![s[k as int]] + rest[0]));
            assert(s.subrange(start as int, k as int) + (seq![s[k as int]] + rest[0]) =~= s.subrange(
                start as int,
                k as int + 1,
            ) + rest[0]);
            assert(parts(here).update(
                0,
                s.subrange(start as int, k as int) + parts(here)[0],
            ) =~= rest.update(0, s.subrange(start as int, k as int + 1) + rest[0]));
        }
        k += 1;
    }
    proof {
        let here = s.skip(k as int);
        if k < chars@.len() {
            assert(here.drop_first() =~= s.skip(k as int + 1));
            assert(here[0] == '.');
            assert(parts(here) == seq![Seq::<char>::empty()] + parts(s.skip(k as int + 1)));
            assert(s.subrange(start as int, k as int) + Seq::<char>::empty() =~= s.subrange(
                start as int,
                k as int,
            ));
            assert(parts(here).update(0, s.subrange(start as int, k as int) + parts(here)[0])
                =~= seq![s.subrange(start as int, k as int)] + parts(s.skip(k as int + 1)));
        } else {
            assert(here.len() == 0);
            assert(s.subrange(start as int, k as int) + Seq::<char>::empty() =~= s.subrange(
                start as int,
                k as int,
            ));
            assert(parts(here).update(0, s.subrange(start as int, k as int) + parts(here)[0])
                =~= seq![s.subrange(start as int, k as int)]);
        }
    }
    (k, k < chars.len())
}

/// Reads the index that the characters of `chars` from `lo` up to `hi`
/// spell.
fn parse_index(chars: &Vec<char>, lo: usize, hi: usize) -> (r: Option<usize>)
    requires
        lo <= hi <= chars@.len(),
    ensures
        match index_of(chars@.subrange(lo as int, hi as int)) {
            Some(index) => r == Some(index as usize) && index <= 0xffff_ffff,
            None => r is None,
        },
{
    match parse_unsigned(chars, lo, hi, 0xffff_ffff) {
        Some(index) => Some(index as usize),
        None => None,
    }
}

fn find_entry<'v>(entries: &'v Vec<(crate::name::Name, ConstValue)>, key: &str) -> (r: Option<
    &'v ConstValue,
>)
    ensures
        match entry_of(ConstValue::Object(*entries)@->Object_0, key@) {
            Some(v) => r is Some && r->Some_0@ == v,
            None => r is None,
        },
{
    let ghost view = ConstValue::Object(*entries)@->Object_0;
    let mut i: usize = 0;
    assert(view.skip(0) =~= view);
    while i < entries.len()
        invariant
            i <= entries.len(),
            view == ConstValue::Object(*entries)@->Object_0,
            entry_of(view, key@) == entry_of(view.skip(i as int), key@),
        decreases entries.len() - i,
    {
        assert(view.skip(i as int).drop_first() =~= view.skip(i as int + 1));
        if entries[i].0.eq_str(key) {
            return Some(&entries[i].1);
        }
        i += 1;
    }
    None
}

fn descend<'v>(value: &'v ConstValue, chars: &Vec<char>, start: usize) -> (r: Option<
    &'v ConstValue,
>)
    requires
        start <= chars@.len(),
    ensures
        match reached(value@, parts(chars@.skip(start as int))) {
            Some(v) => r is Some && r->Some_0@ == v,
            None => r is None,
        },
    decreases chars@.len() - start,
{
    let (end, more) = part_end(chars, start);
    let ghost path = parts(chars@.skip(start as int));
    let ghost part = chars@.subrange(start as int, end as int);
    proof {
        lemma_parts_len(chars@.skip(start as int));
    }
    assert(path[0] == part);
    assert(more ==> end < chars@.len());
    let below = match value {
        ConstValue::List(items) => match parse_index(chars, start, end) {
            Some(index) => if index < items.len() {
                Some(&items[index])
            } else {
                None
            },
            None => None,
        },
        ConstValue::Object(entries) => {
            let key = string_of(chars, start, end);
            find_entry(entries, key.as_str())
        },
        _ => None,
    };
    assert(match step(value@, part) {
        Some(v) => below is Some && below->Some_0@ == v,
        None => below is None,
    });
    let n = chars.len();
    match below {
        Some(below) => {
            if more {
                assert(end < n);
                assert(path.drop_first() =~= parts(chars@.skip(end as int + 1)));
                descend(below, chars, end + 1)
            } else {
                assert(path.drop_first() =~= Seq::<Seq<char>>::empty());
                assert(reached(below@, path.drop_first()) == Some(below@));
                Some(below)
            }
        },
        None => None,
    }
}

impl Variables {
    /// The value that `path` names, such as `variables.files.0`; see
    /// [`path_value`].
    pub fn variable_path(&self, path: &str) -> (r: Option<&ConstValue>)
        ensures
            match path_value(self@, path@) {
                Some(v) => r is Some && r->Some_0@ == v,
                None => r is None,
            },
    {
        let chars = chars_of(path);
        let prefix = chars_of("variables.");
        if !has_prefix(&chars, &prefix) {
            return None;
        }
        let n = prefix.len();
        let (end, more) = part_end(&chars, n);
        let ghost names = parts(chars@.skip(n as int));
        proof {
            lemma_parts_len(chars@.skip(n as int));
        }
        assert(names[0] == chars@.subrange(n as int, end as int));
        assert(more ==> end < chars@.len());
        let key = string_of(&chars, n, end);
        match find_entry(&self.0, key.as_str()) {
            Some(value) => {
                if more {
                    assert(end < chars.len());
                    assert(names.drop_first() =~= parts(chars@.skip(end as int + 1)));
                    descend(value, &chars, end + 1)
                } else {
                    assert(names.drop_first() =~= Seq::<Seq<char>>::empty());
                    assert(reached(value@, names.drop_first()) == Some(value@));
                    Some(value)
                }
            },
            None => None,
        }
    }
}

/// `value` with `below` in place of what it holds under `part`; `value` as
/// it is if it holds nothing under `part`.
pub open spec fn put_step(value: ValueView, part: Seq<char>, below: ValueView) -> ValueView {
    match value {
        ValueView::List(items) => match index_of(part) {
            Some(index) => if index < items.len() {
                ValueView::List(items.update(index as int, below))
            } else {
                value
            },
            None => value,
        },
        ValueView::Object(entries) => ValueView::Object(entry_put(entries, part, below)),
        _ => value,
    }
}

/// `value` with `new` in place of what is reached from it by following
/// `path`; `value` as it is if nothing is reached.
pub open spec fn put(value: ValueView, path: Seq<Seq<char>>, new: ValueView) -> ValueView
    decreases path.len(),
{
    if path.len() == 0 {
        new
    } else {
        match step(value, path[0]) {
            Some(below) => put_step(value, path[0], put(below, path.drop_first(), new)),
            None => value,
        }
    }
}

/// `variables` with `new` in place of the value that `path` names;
/// `variables` as they are if `path` names none.
pub open spec fn path_put(variables: Seq<EntryView>, path: Seq<char>, new: ValueView) -> Seq<
    EntryView,
> {
    let prefix = "variables."@;
    if path.len() >= prefix.len() && path.take(prefix.len() as int) == prefix {
        let names = parts(path.skip(prefix.len() as int));
        match entry_of(variables, names[0]) {
            Some(value) => entry_put(variables, names[0], put(value, names.drop_first(), new)),
            None => variables,
        }
    } else {
        variables
    }
}

/// After a value was put at a path that leads somewhere, the path leads to
/// that value.
pub proof fn lemma_reached_after_put(value: ValueView, path: Seq<Seq<char>>, new: ValueView)
    requires
        reached(value, path) is Some,
    ensures
        reached(put(value, path, new), path) == Some(new),
    decreases path.len(),
{
    if path.len() > 0 {
        let below = step(value, path[0])->Some_0;
        let inner = put(below, path.drop_first(), new);
        lemma_reached_after_put(below, path.drop_first(), new);
        match value {
            ValueView::Object(entries) => {
                lemma_entry_of_put(entries, path[0], inner);
            },
            _ => {},
        }
        assert(step(put_step(value, path[0], inner), path[0]) == Some(inner));
    }
}

/// After a value was put at a path that names a value in the variables, the
/// path names that value.
pub proof fn lemma_path_value_after_put(variables: Seq<EntryView>, path: Seq<char>, new: ValueView)
    requires
        path_value(variables, path) is Some,
    ensures
        path_value(path_put(variables, path, new), path) == Some(new),
{
    let prefix = "variables."@;
    let names = parts(path.skip(prefix.len() as int));
    let value = entry_of(variables, names[0])->Some_0;
    lemma_reached_after_put(value, names.drop_first(), new);
    lemma_entry_of_put(variables, names[0], put(value, names.drop_first(), new));
}

fn find_entry_mut<'v>(entries: &'v mut Vec<(crate::name::Name, ConstValue)>, key: &str) -> (r:
    Option<&'v mut ConstValue>)
    ensures
        match r {
            Some(value) => entry_of(entries_view(old(entries)@), key@) == Some((*value)@)
                && entries_view(final(entries)@) =~= entry_put(
                entries_view(old(entries)@),
                key@,
                (*final(value))@,
            ),
            None => entry_of(entries_view(old(entries)@), key@) is None
                && *final(entries) == *old(entries),
        },
{
    let ghost before = entries_view(entries@);
    match entry_position(entries, key) {
        Some(i) => {
            proof {
                assert forall|j: int| 0 <= j < i implies (#[trigger] before[j]).key != key@ by {
                    assert(before[j].key == entries@[j].0@);
                }
                lemma_entry_put_at(before, key@, before[i as int].value, i as int);
            }
            let slot = &mut entries[i];
            let r = &mut slot.1;
            proof {
                lemma_entry_put_at(before, key@, (*final(r))@, i as int);
            }
            Some(r)
        },
        None => {
            proof {
                assert forall|j: int| 0 <= j < before.len() implies (#[trigger] before[j]).key
                    != key@ by {
                    assert(before[j].key == entries@[j].0@);
                }
                lemma_entry_of_none(before, key@);
            }
            None
        },
    }
}

fn child_mut<'v>(value: &'v mut ConstValue, chars: &Vec<char>, start: usize, end: usize) -> (r:
    Option<&'v mut ConstValue>)
    requires
        start <= end <= chars@.len(),
    ensures
        match r {
            Some(below) => step((*old(value))@, chars@.subrange(start as int, end as int)) == Some(
                (*below)@,
            ),
            None => step((*old(value))@, chars@.subrange(start as int, end as int)) is None && (
            *final(value))@ == (*old(value))@,
        },
        r is Some ==> (*final(value))@ == put_step(
            (*old(value))@,
            chars@.subrange(start as int, end as int),
            (*final(r->Some_0))@,
        ),
{
    proof {
        assert forall|items: Vec<ConstValue>, changed: Vec<ConstValue>, index: int, item: ConstValue|
            #![trigger changed@, items@.update(index, item)]
            0 <= index < items@.len() && changed@ == items@.update(index, item) implies ConstValue::List(
                changed,
            )@ == ValueView::List(ConstValue::List(items)@->List_0.update(index, item@)) by {
            assert(ConstValue::List(changed)@->List_0 =~= ConstValue::List(
                items,
            )@->List_0.update(index, item@));
        }
        assert forall|entries: Vec<(crate::name::Name, ConstValue)>|
            ConstValue::Object(entries)@ == ValueView::Object(
                #[trigger] entries_view(entries@),
            ) by {
            lemma_object_view(entries);
        }
    }
    match value {
        ConstValue::List(items) => match parse_index(chars, start, end) {
            Some(index) => if index < items.len() {
                Some(&mut items[index])
            } else {
                None
            },
            None => None,
        },
        ConstValue::Object(entries) => {
            let key = string_of(chars, start, end);
            proof {
                lemma_object_view(*entries);
            }
            find_entry_mut(entries, key.as_str())
        },
        _ => None,
    }
}

fn descend_mut<'v>(value: &'v mut ConstValue, chars: &Vec<char>, start: usize) -> (r: Option<
    &'v mut ConstValue,
>)
    requires
        start <= chars@.len(),
    ensures
        match r {
            Some(target) => reached((*old(value))@, parts(chars@.skip(start as int))) == Some(
                (*target)@,
            ),
            None => reached((*old(value))@, parts(chars@.skip(start as int))) is None && (
            *final(value))@ == (*old(value))@,
        },
        r is Some ==> (*final(value))@ == put(
            (*old(value))@,
            parts(chars@.skip(start as int)),
            (*final(r->Some_0))@,
        ),
    decreases chars@.len() - start,
{
    let (end, more) = part_end(chars, start);
    let ghost path = parts(chars@.skip(start as int));
    let ghost part = chars@.subrange(start as int, end as int);
    let ghost before = (*value)@;
    proof {
        lemma_parts_len(chars@.skip(start as int));
        assert forall|items: Seq<ValueView>, index: int|
            0 <= index < items.len() implies #[trigger] items.update(index, items[index])
            == items by {
            assert(items.update(index, items[index]) =~= items);
        }
        assert forall|entries: Seq<EntryView>, key: Seq<char>, same: ValueView|
            entry_of(entries, key) == Some(same) implies #[trigger] entry_put(entries, key, same)
            == entries by {
            lemma_entry_put_same(entries, key, same);
        }
    }
    assert(path[0] == part);
    let n = chars.len();
    match child_mut(value, chars, start, end) {
        Some(below) => {
            if more {
                assert(end < n);
                assert(path.drop_first() =~= parts(chars@.skip(end as int + 1)));
                let ghost middle = (*below)@;
                let r = descend_mut(below, chars, end + 1);
                proof {
                    if r is Some {
                        let last = (*final(r->Some_0))@;
                        assert(put(before, path, last) == put_step(
                            before,
                            part,
                            put(middle, path.drop_first(), last),
                        ));
                    }
                }
                r
            } else {
                assert(path.drop_first() =~= Seq::<Seq<char>>::empty());
                assert(reached((*below)@, path.drop_first()) == Some((*below)@));
                proof {
                    let last = (*final(below))@;
                    assert(put((*below)@, path.drop_first(), last) == last);
                    assert(put(before, path, last) == put_step(before, part, last));
                }
                Some(below)
            }
        },
        None => None,
    }
}

fn has_prefix(chars: &Vec<char>, prefix: &Vec<char>) -> (r: bool)
    ensures
        r == (chars@.len() >= prefix@.len() && chars@.take(prefix@.len() as int) == prefix@),
{
    let n = prefix.len();
    if chars.len() < n {
        return false;
    }
    let mut i: usize = 0;
    while i < n
        invariant
            i <= n,
            n == prefix@.len(),
            n <= chars@.len(),
            chars@.take(i as int) == prefix@.take(i as int),
        decreases n - i,
    {
        if chars[i] != prefix[i] {
            assert(chars@.take(n as int)[i as int] != prefix@[i as int]);
            return false;
        }
        assert(chars@.take(i as int + 1) =~= chars@.take(i as int).push(chars@[i as int]));
        assert(prefix@.take(i as int + 1) =~= prefix@.take(i as int).push(prefix@[i as int]));
        i += 1;
    }
    assert(prefix@.take(n as int) =~= prefix@);
    true
}

impl Variables {
    /// The value that `path` names, to be changed in place; see
    /// [`path_value`] and [`path_put`].
    pub fn variable_path_mut(&mut self, path: &str) -> (r: Option<&mut ConstValue>)
        ensures
            match r {
                Some(target) => path_value(old(self)@, path@) == Some((*target)@),
                None => path_value(old(self)@, path@) is None && final(self)@ == old(self)@,
            },
            r is Some ==> final(self)@ == path_put(old(self)@, path@, (*final(r->Some_0))@),
    {
        let chars = chars_of(path);
        let prefix = chars_of("variables.");
        proof {
            lemma_object_view(self.0);
            assert forall|entries: Vec<(crate::name::Name, ConstValue)>|
                ConstValue::Object(entries)@->Object_0 == #[trigger] entries_view(entries@) by {
                lemma_object_view(entries);
            }
            assert forall|entries: Seq<EntryView>, key: Seq<char>, same: ValueView|
                entry_of(entries, key) == Some(same) implies #[trigger] entry_put(
                    entries,
                    key,
                    same,
                ) == entries by {
                lemma_entry_put_same(entries, key, same);
            }
        }
        if !has_prefix(&chars, &prefix) {
            return None;
        }
        let n = prefix.len();
        let (end, more) = part_end(&chars, n);
        let ghost names = parts(chars@.skip(n as int));
        proof {
            lemma_parts_len(chars@.skip(n as int));
        }
        assert(names[0] == chars@.subrange(n as int, end as int));
        let key = string_of(&chars, n, end);
        let len = chars.len();
        match find_entry_mut(&mut self.0, key.as_str()) {
            Some(value) => {
                if more {
                    assert(end < len);
                    assert(names.drop_first() =~= parts(chars@.skip(end as int + 1)));
                    descend_mut(value, &chars, end + 1)
                } else {
                    assert(names.drop_first() =~= Seq::<Seq<char>>::empty());
                    assert(reached((*value)@, names.drop_first()) == Some((*value)@));
                    proof {
                        let last = (*final(value))@;
                        assert(put((*value)@, names.drop_first(), last) == last);
                    }
                    Some(value)
                }
            },
            None => None,
        }
    }
}

} // verus!
