//! The members of JSON objects, kept in the order of their keys.

use vstd::prelude::*;
use crate::json::{members_ordered, Json, JsonView, MemberView};
use crate::order::{lemma_text_lt_total, lemma_text_lt_transitive, text_less, text_lt};
use crate::text::{reversed, str_eq};

verus! {

/// The value of the first member of `members` whose key is `key`.
pub open spec fn member_of(members: Seq<MemberView>, key: Seq<char>) -> Option<JsonView>
    decreases members.len(),
{
    if members.len() == 0 {
        None
    } else if members[0].key == key {
        Some(members[0].value)
    } else {
        member_of(members.drop_first(), key)
    }
}


/// The mathematical model of a list of members.
pub open spec fn members_view(members: Seq<(String, Json)>) -> Seq<MemberView> {
    Seq::new(members.len(), |i: int| MemberView { key: members[i].0@, value: members[i].1@ })
}

/// A JSON object is modelled by the models of its members.
pub proof fn lemma_members_view(members: Vec<(String, Json)>)
    ensures
        Json::Object(members)@ == JsonView::Object(members_view(members@)),
{
    assert(Json::Object(members)@->Object_0 =~= members_view(members@));
}


/// `members` with `value` in place of the value of the first member whose
/// key is `key`; `members` as they are if there is no such member.
pub open spec fn member_put(members: Seq<MemberView>, key: Seq<char>, value: JsonView) -> Seq<
    MemberView,
>
    decreases members.len(),
{
    if members.len() == 0 {
        members
    } else if members[0].key == key {
        members.update(0, MemberView { key, value })
    } else {
        seq![members[0]] + member_put(members.drop_first(), key, value)
    }
}

/// After a value was put under a key that has a member, the key leads to
/// that value.
pub proof fn lemma_member_of_put(members: Seq<MemberView>, key: Seq<char>, value: JsonView)
    requires
        member_of(members, key) is Some,
    ensures
        member_of(member_put(members, key, value), key) == Some(value),
    decreases members.len(),
{
    if members.len() > 0 && members[0].key != key {
        lemma_member_of_put(members.drop_first(), key, value);
        let rest = member_put(members.drop_first(), key, value);
        assert((seq![members[0]] + rest).drop_first() =~= rest);
    }
}

/// The first member that holds a key is the one that the key leads to, and
/// the one whose value a put replaces.
pub proof fn lemma_member_put_at(members: Seq<MemberView>, key: Seq<char>, value: JsonView, i: int)
    requires
        0 <= i < members.len(),
        members[i].key == key,
        forall|j: int| 0 <= j < i ==> (#[trigger] members[j]).key != key,
    ensures
        member_of(members, key) == Some(members[i].value),
        member_put(members, key, value) == members.update(i, MemberView { key, value }),
    decreases i,
{
    if i > 0 {
        let rest = members.drop_first();
        assert(rest[i - 1] == members[i]);
        assert forall|j: int| 0 <= j < i - 1 implies (#[trigger] rest[j]).key != key by {
            assert(rest[j] == members[j + 1]);
        }
        lemma_member_put_at(rest, key, value, i - 1);
        assert(seq![members[0]] + rest.update(i - 1, MemberView { key, value }) =~= members.update(
            i,
            MemberView { key, value },
        ));
    }
}


/// A key that no member holds leads to nothing.
pub proof fn lemma_member_of_none(members: Seq<MemberView>, key: Seq<char>)
    requires
        forall|j: int| 0 <= j < members.len() ==> (#[trigger] members[j]).key != key,
    ensures
        member_of(members, key) is None,
    decreases members.len(),
{
    if members.len() > 0 {
        let rest = members.drop_first();
        assert forall|j: int| 0 <= j < rest.len() implies (#[trigger] rest[j]).key != key by {
            assert(rest[j] == members[j + 1]);
        }
        lemma_member_of_none(rest, key);
    }
}

/// A put under one key leaves what every other key leads to.
pub proof fn lemma_member_of_put_other(
    members: Seq<MemberView>,
    key: Seq<char>,
    value: JsonView,
    other: Seq<char>,
)
    requires
        other != key,
    ensures
        member_of(member_put(members, key, value), other) == member_of(members, other),
    decreases members.len(),
{
    if members.len() > 0 && members[0].key != key {
        lemma_member_of_put_other(members.drop_first(), key, value, other);
        let rest = member_put(members.drop_first(), key, value);
        assert((seq![members[0]] + rest).drop_first() =~= rest);
    } else if members.len() > 0 {
        assert(members.update(0, MemberView { key, value }).drop_first() =~= members.drop_first());
    }
}

/// A new member, put at any place among members that do not hold its key, is
/// the one that its key leads to, and leaves what every other key leads to.
pub proof fn lemma_member_of_insert(members: Seq<MemberView>, place: int, member: MemberView)
    requires
        0 <= place <= members.len(),
        forall|j: int| 0 <= j < members.len() ==> (#[trigger] members[j]).key != member.key,
    ensures
        member_of(members.insert(place, member), member.key) == Some(member.value),
        forall|other: Seq<char>|
            other != member.key ==> member_of(members.insert(place, member), other) == member_of(
                members,
                other,
            ),
    decreases place,
{
    let after = members.insert(place, member);
    if place == 0 {
        assert(after.drop_first() =~= members);
        assert forall|other: Seq<char>| other != member.key implies member_of(after, other)
            == member_of(members, other) by {}
    } else {
        let rest = members.drop_first();
        assert forall|j: int| 0 <= j < rest.len() implies (#[trigger] rest[j]).key != member.key by {
            assert(rest[j] == members[j + 1]);
        }
        lemma_member_of_insert(rest, place - 1, member);
        assert(after.drop_first() =~= rest.insert(place - 1, member));
        assert(after[0] == members[0]);
        assert forall|other: Seq<char>| other != member.key implies member_of(after, other)
            == member_of(members, other) by {
            assert(member_of(rest.insert(place - 1, member), other) == member_of(rest, other));
        }
    }
}

/// The place of the first of `members` whose key is `key`.
pub fn member_position(members: &Vec<(String, Json)>, key: &str) -> (r: Option<usize>)
    ensures
        match r {
            Some(i) => i < members@.len() && members@[i as int].0@ == key@ && forall|j: int|
                0 <= j < i ==> (#[trigger] members@[j]).0@ != key@,
            None => forall|j: int| 0 <= j < members@.len() ==> (#[trigger] members@[j]).0@ != key@,
        },
{
    let mut i: usize = 0;
    while i < members.len()
        invariant
            i <= members.len(),
            forall|j: int| 0 <= j < i ==> (#[trigger] members@[j]).0@ != key@,
        decreases members.len() - i,
    {
        if str_eq(members[i].0.as_str(), key) {
            return Some(i);
        }
        i += 1;
    }
    None
}


/// Puts `value` under `key` into a list of members: in place of the value
/// of the first member that holds the key, which is returned, or, where no
/// member holds it, before the first member whose key does not come before
/// `key`. A list that was in the order of its keys stays in that order.
pub fn insert_member(members: &mut Vec<(String, Json)>, key: String, value: Json) -> (r:
    Option<Json>)
    ensures
        members_ordered(members_view(old(members)@)) ==> members_ordered(members_view(final(members)@)),
        member_of(members_view(final(members)@), key@) == Some(value@),
        forall|other: Seq<char>|
            other != key@ ==> member_of(members_view(final(members)@), other) == member_of(
                members_view(old(members)@),
                other,
            ),
        match member_of(members_view(old(members)@), key@) {
            Some(previous) => r is Some && r->Some_0@ == previous && final(members)@.len() == old(
                members,
            )@.len(),
            None => r is None && final(members)@.len() == old(members)@.len() + 1,
        },
{
    let ghost before = members_view(members@);
    let ghost k = key@;
    let ghost v = value@;
    match member_position(members, key.as_str()) {
        Some(i) => {
            proof {
                assert forall|j: int| 0 <= j < i implies (#[trigger] before[j]).key != k by {
                    assert(before[j].key == members@[j].0@);
                }
                lemma_member_put_at(before, k, v, i as int);
                lemma_member_of_put(before, k, v);
                assert forall|other: Seq<char>| other != k implies member_of(
                    member_put(before, k, v),
                    other,
                ) == member_of(before, other) by {
                    lemma_member_of_put_other(before, k, v, other);
                }
            }
            let mut taken: Vec<(String, Json)> = Vec::new();
            std::mem::swap(members, &mut taken);
            let old_member = taken.remove(i);
            taken.insert(i, (key, value));
            std::mem::swap(members, &mut taken);
            proof {
                let after = members_view(members@);
                assert(after =~= before.update(i as int, MemberView { key: k, value: v }));
                if members_ordered(before) {
                    assert forall|a: int, b: int| 0 <= a < b < after.len() implies text_lt(
                        (#[trigger] after[a]).key,
                        (#[trigger] after[b]).key,
                    ) by {
                        assert(after[a].key == before[a].key);
                        assert(after[b].key == before[b].key);
                    }
                }
            }
            Some(old_member.1)
        },
        None => {
            let mut p: usize = 0;
            while p < members.len() && text_less(members[p].0.as_str(), key.as_str())
                invariant
                    p <= members@.len(),
                    members@ == old(members)@,
                    before == members_view(members@),
                    forall|i: int| 0 <= i < p ==> text_lt(#[trigger] before[i].key, key@),
                decreases members@.len() - p,
            {
                p += 1;
            }
            proof {
                assert forall|j: int| 0 <= j < before.len() implies (#[trigger] before[j]).key
                    != k by {
                    assert(before[j].key == members@[j].0@);
                }
                lemma_member_of_none(before, k);
                lemma_member_of_insert(before, p as int, MemberView { key: k, value: v });
            }
            members.insert(p, (key, value));
            proof {
                let after = members_view(members@);
                assert(after =~= before.insert(p as int, MemberView { key: k, value: v }));
                if members_ordered(before) {
                    if p < before.len() {
                        lemma_text_lt_total(before[p as int].key, k);
                    }
                    assert forall|a: int, b: int| 0 <= a < b < after.len() implies text_lt(
                        (#[trigger] after[a]).key,
                        (#[trigger] after[b]).key,
                    ) by {
                        if b < p {
                            assert(text_lt(before[a].key, before[b].key));
                        } else if b == p {
                            assert(text_lt(before[a].key, k));
                        } else if a < p {
                            assert(text_lt(before[a].key, before[b - 1].key));
                        } else if a == p {
                            if b - 1 > p {
                                assert(text_lt(before[p as int].key, before[b - 1].key));
                                lemma_text_lt_transitive(k, before[p as int].key, before[b - 1].key);
                            }
                        } else {
                            assert(text_lt(before[a - 1].key, before[b - 1].key));
                        }
                    }
                }
            }
            None
        },
    }
}


/// The last of `pairs` that stands under `key`.
pub open spec fn last_member(pairs: Seq<MemberView>, key: Seq<char>) -> Option<JsonView>
    decreases pairs.len(),
{
    if pairs.len() == 0 {
        None
    } else if pairs.last().key == key {
        Some(pairs.last().value)
    } else {
        last_member(pairs.drop_last(), key)
    }
}

/// The members that hold `pairs` in the order of their keys. Where a key
/// occurs more than once, the last of its values stays.
pub fn ordered_members(pairs: Vec<(String, Json)>) -> (r: Vec<(String, Json)>)
    ensures
        members_ordered(members_view(r@)),
        forall|key: Seq<char>|
            member_of(members_view(r@), key) == last_member(members_view(pairs@), key),
{
    let ghost all = members_view(pairs@);
    let ghost before = pairs@;
    let mut rest = reversed(pairs);
    let mut out: Vec<(String, Json)> = Vec::new();
    let ghost mut done: int = 0;
    assert(all.take(0) =~= Seq::<MemberView>::empty());
    while rest.len() > 0
        invariant
            all == members_view(before),
            0 <= done <= before.len(),
            rest@.len() + done == before.len(),
            forall|j: int| 0 <= j < rest@.len() ==> rest@[j] == before[before.len() - 1 - j],
            members_ordered(members_view(out@)),
            forall|key: Seq<char>|
                member_of(members_view(out@), key) == last_member(all.take(done), key),
        decreases rest@.len(),
    {
        let (key, value) = rest.pop().unwrap();
        proof {
            let now = all.take(done + 1);
            assert(now.drop_last() =~= all.take(done));
            assert(now.last() == all[done]);
            assert(all[done] == (MemberView { key: key@, value: value@ }));
        }
        insert_member(&mut out, key, value);
        proof {
            done = done + 1;
        }
    }
    assert(all.take(done) =~= all);
    out
}

impl Json {
    /// The JSON object that holds `pairs`, in the order of their keys. Where
    /// a key occurs more than once, the last of its values stays.
    pub fn object(pairs: Vec<(String, Json)>) -> (r: Json)
        ensures
            r@ is Object,
            members_ordered(r@->Object_0),
            forall|key: Seq<char>|
                member_of(r@->Object_0, key) == last_member(members_view(pairs@), key),
    {
        let members = ordered_members(pairs);
        proof {
            lemma_members_view(members);
        }
        Json::Object(members)
    }
}


} // verus!
