//! Lists of JSON values: filtering, ordering, copying and changing members.
use vstd::prelude::*;
use crate::compare::{precedes, text_precedes};
use crate::json::{
    items_view, member_in, members_view, no_items, no_members, push_item, push_member, Json,
    JsonView,
};
use crate::order::{arranged, indices};
use crate::text::{copy, same};

verus! {

/// The items that pass a test.
pub(crate) fn keep<F: Fn(&Json) -> bool>(
    items: &Vec<Json>,
    test: F,
    Ghost(wanted): Ghost<spec_fn(JsonView) -> bool>,
) -> (r: Vec<Json>)
    requires
        forall|item: &Json| call_requires(test, (item,)),
        forall|item: &Json, passed: bool|
            call_ensures(test, (item,), passed) ==> passed == wanted(item@),
    ensures
        items_view(r@) == items_view(items@).filter(wanted),
{
    let mut out = no_items();
    let ghost all = items_view(items@);
    proof {
        reveal(Seq::filter);
        assert(all.take(0) =~= Seq::empty());
    }
    for i in 0..items.len()
        invariant
            all == items_view(items@),
            forall|item: &Json| call_requires(test, (item,)),
            forall|item: &Json, passed: bool|
                call_ensures(test, (item,), passed) ==> passed == wanted(item@),
            items_view(out@) == all.take(i as int).filter(wanted),
    {
        proof {
            reveal(Seq::filter);
            assert(all.take(i + 1).drop_last() =~= all.take(i as int));
            assert(all.take(i + 1).last() == items@[i as int]@);
        }
        if test(&items[i]) {
            push_item(&mut out, items[i].copy());
        }
    }
    assert(all.take(all.len() as int) =~= all);
    out
}

/// The items in an order.
pub fn arrange(items: &Vec<Json>, order: &Vec<usize>) -> (r: Vec<Json>)
    requires
        forall|p: int| 0 <= p < order@.len() ==> #[trigger] order@[p] < items@.len(),
    ensures
        items_view(r@) == arranged(items_view(items@), indices(order@)),
{
    let mut out = no_items();
    let ghost sorted = arranged(items_view(items@), indices(order@));
    assert(sorted.take(0) =~= Seq::empty());
    for i in 0..order.len()
        invariant
            forall|p: int| 0 <= p < order@.len() ==> #[trigger] order@[p] < items@.len(),
            sorted == arranged(items_view(items@), indices(order@)),
            items_view(out@) == sorted.take(i as int),
    {
        push_item(&mut out, items[order[i]].copy());
        assert(sorted.take(i + 1) =~= sorted.take(i as int).push(items@[order@[i as int] as int]@));
    }
    assert(sorted.take(sorted.len() as int) =~= sorted);
    out
}

/// The first items of a list, at most as many as a limit says.
pub open spec fn first_items(items: Seq<JsonView>, limit: nat) -> Seq<JsonView> {
    if items.len() <= limit {
        items
    } else {
        items.take(limit as int)
    }
}

/// The first items of a list, at most as many as a limit says.
pub fn take_items(items: &Vec<Json>, limit: usize) -> (r: Vec<Json>)
    ensures
        items_view(r@) == first_items(items_view(items@), limit as nat),
        r@.len() <= items@.len(),
        r@.len() <= limit,
{
    let mut out = no_items();
    let ghost all = items_view(items@);
    assert(all.take(0) =~= Seq::empty());
    let mut i: usize = 0;
    while i < items.len() && i < limit
        invariant
            i <= items@.len(),
            i <= limit,
            all == items_view(items@),
            out@.len() == i,
            items_view(out@) == all.take(i as int),
        decreases items@.len() - i,
    {
        push_item(&mut out, items[i].copy());
        assert(all.take(i + 1) =~= all.take(i as int).push(items@[i as int]@));
        i = i + 1;
    }
    assert(all.take(all.len() as int) =~= all);
    out
}

/// A copy of a list.
pub fn copy_items(items: &Vec<Json>) -> (r: Vec<Json>)
    ensures
        items_view(r@) == items_view(items@),
{
    take_items(items, items.len())
}

/// A copy of the members of an object.
pub fn copy_members(members: &Vec<(String, Json)>) -> (r: Vec<(String, Json)>)
    ensures
        members_view(r@) == members_view(members@),
{
    let mut out = no_members();
    let ghost all = members_view(members@);
    assert(all.take(0) =~= Seq::empty());
    for i in 0..members.len()
        invariant
            all == members_view(members@),
            members_view(out@) == all.take(i as int),
    {
        push_member(&mut out, members[i].0.as_str(), members[i].1.copy());
        assert(all.take(i + 1) =~= all.take(i as int).push(
            (members@[i as int].0@, members@[i as int].1@),
        ));
    }
    assert(all.take(all.len() as int) =~= all);
    out
}

/// Members with one of a name and value among them: in place of the first of that name, or else
/// in front of the first name that comes after it.
pub open spec fn with_member(
    members: Seq<(Seq<char>, JsonView)>,
    name: Seq<char>,
    value: JsonView,
) -> Seq<(Seq<char>, JsonView)>
    decreases members.len(),
{
    if members.len() == 0 {
        seq![(name, value)]
    } else if members[0].0 == name {
        seq![(name, value)] + members.skip(1)
    } else if precedes(name, members[0].0) {
        seq![(name, value)] + members
    } else {
        seq![members[0]] + with_member(members.skip(1), name, value)
    }
}

/// The test that a member has another name.
pub open spec fn is_other(name: Seq<char>) -> spec_fn((Seq<char>, JsonView)) -> bool {
    |member: (Seq<char>, JsonView)| member.0 != name
}

/// Members without those of a name.
pub open spec fn without_member(
    members: Seq<(Seq<char>, JsonView)>,
    name: Seq<char>,
) -> Seq<(Seq<char>, JsonView)> {
    members.filter(is_other(name))
}

/// Whether the names of the members come in their order, each only once.
pub open spec fn are_ordered(members: Seq<(Seq<char>, JsonView)>) -> bool {
    forall|i: int, j: int|
        0 <= i < j < members.len() ==> precedes(
            (#[trigger] members[i]).0,
            (#[trigger] members[j]).0,
        )
}

/// Puts a member among others: in place of the first of its name, or else in front of the first
/// name that comes after it.
pub fn put_member(members: &Vec<(String, Json)>, name: &str, value: Json) -> (r: Vec<(String, Json)>)
    ensures
        members_view(r@) == with_member(members_view(members@), name@, value@),
{
    let ghost all = members_view(members@);
    let mut out = no_members();
    let mut i: usize = 0;
    assert(all.skip(0) =~= all);
    assert(all.take(0) =~= Seq::empty());
    assert(all.take(0) + with_member(all, name@, value@) =~= with_member(all, name@, value@));
    while i < members.len() && !same(members[i].0.as_str(), name) && !text_precedes(
        name,
        members[i].0.as_str(),
    )
        invariant
            i <= members@.len(),
            all == members_view(members@),
            members_view(out@) == all.take(i as int),
            with_member(all, name@, value@) == all.take(i as int) + with_member(
                all.skip(i as int),
                name@,
                value@,
            ),
        decreases members@.len() - i,
    {
        let ghost rest = all.skip(i as int);
        push_member(&mut out, members[i].0.as_str(), members[i].1.copy());
        assert(rest[0] == (members@[i as int].0@, members@[i as int].1@));
        assert(rest.skip(1) =~= all.skip(i + 1));
        assert(all.take(i + 1) =~= all.take(i as int).push(rest[0]));
        assert(all.take(i as int) + (seq![rest[0]] + with_member(rest.skip(1), name@, value@))
            =~= all.take(i + 1) + with_member(rest.skip(1), name@, value@));
        i = i + 1;
    }
    let ghost front = all.take(i as int);
    let ghost rest = all.skip(i as int);
    let mut j: usize = i;
    if i < members.len() {
        assert(rest[0] == (members@[i as int].0@, members@[i as int].1@));
        if same(members[i].0.as_str(), name) {
            j = i + 1;
        }
    }
    let ghost tail = all.skip(j as int);
    assert(with_member(rest, name@, value@) =~= seq![(name@, value@)] + tail) by {
        if i < members@.len() {
            if j == i + 1 {
                assert(rest.skip(1) =~= tail);
            }
        } else {
            assert(tail =~= Seq::empty());
        }
    }
    push_member(&mut out, name, value);
    let ghost kept = front.push((name@, value@));
    assert(kept + tail.take(0) =~= kept);
    let start = j;
    while j < members.len()
        invariant
            start <= j <= members@.len(),
            all == members_view(members@),
            tail == all.skip(start as int),
            members_view(out@) == kept + tail.take(j - start),
        decreases members@.len() - j,
    {
        push_member(&mut out, members[j].0.as_str(), members[j].1.copy());
        assert(tail[j - start] == (members@[j as int].0@, members@[j as int].1@));
        assert(kept + tail.take(j + 1 - start) =~= (kept + tail.take(j - start)).push(
            tail[j - start],
        ));
        j = j + 1;
    }
    assert(tail.take(tail.len() as int) =~= tail);
    assert(kept + tail =~= front + (seq![(name@, value@)] + tail));
    out
}

/// Removes the members of a name.
pub fn remove_member(members: &Vec<(String, Json)>, name: &str) -> (r: Vec<(String, Json)>)
    ensures
        members_view(r@) == without_member(members_view(members@), name@),
{
    let ghost all = members_view(members@);
    let ghost other = is_other(name@);
    let mut out = no_members();
    proof {
        reveal(Seq::filter);
        assert(all.take(0) =~= Seq::empty());
    }
    for i in 0..members.len()
        invariant
            all == members_view(members@),
            other == is_other(name@),
            members_view(out@) == all.take(i as int).filter(other),
    {
        proof {
            reveal(Seq::filter);
            assert(all.take(i + 1).drop_last() =~= all.take(i as int));
            assert(all.take(i + 1).last() == (members@[i as int].0@, members@[i as int].1@));
        }
        if !same(members[i].0.as_str(), name) {
            push_member(&mut out, members[i].0.as_str(), members[i].1.copy());
        }
    }
    assert(all.take(all.len() as int) =~= all);
    out
}

/// A member that was put is found again, and every other member is found as before.
pub proof fn lemma_put_member_found(
    members: Seq<(Seq<char>, JsonView)>,
    name: Seq<char>,
    value: JsonView,
    other: Seq<char>,
)
    ensures
        member_in(with_member(members, name, value), other) == (if other == name {
            Some(value)
        } else {
            member_in(members, other)
        }),
    decreases members.len(),
{
    let result = with_member(members, name, value);
    if members.len() == 0 {
        assert(result.skip(1) =~= members);
    } else if members[0].0 == name {
        assert(result[0] == (name, value));
        assert(result.skip(1) =~= members.skip(1));
    } else if precedes(name, members[0].0) {
        assert(result[0] == (name, value));
        assert(result.skip(1) =~= members);
    } else {
        lemma_put_member_found(members.skip(1), name, value, other);
        assert(result[0] == members[0]);
        assert(result.skip(1) =~= with_member(members.skip(1), name, value));
    }
}

/// A member that was removed is not found, and every other member is found as before.
pub proof fn lemma_removed_member_missing(
    members: Seq<(Seq<char>, JsonView)>,
    name: Seq<char>,
    other: Seq<char>,
)
    ensures
        member_in(without_member(members, name), other) == (if other == name {
            None
        } else {
            member_in(members, other)
        }),
    decreases members.len(),
{
    let wanted = is_other(name);
    if members.len() == 0 {
        reveal(Seq::filter);
    } else {
        let rest = members.skip(1);
        lemma_removed_member_missing(rest, name, other);
        assert(members =~= seq![members[0]] + rest);
        Seq::filter_distributes_over_add(seq![members[0]], rest, wanted);
        assert(seq![members[0]].drop_last() =~= Seq::empty());
        assert(seq![members[0]].filter(wanted) =~= if members[0].0 != name {
            seq![members[0]]
        } else {
            Seq::empty()
        }) by {
            reveal_with_fuel(Seq::filter, 2);
        }
        let result = without_member(members, name);
        if members[0].0 != name {
            assert(result =~= seq![members[0]] + without_member(rest, name));
            assert(result.skip(1) =~= without_member(rest, name));
        } else {
            assert(result =~= without_member(rest, name));
        }
    }
}

/// Putting a member keeps the members in their order.
pub proof fn lemma_put_member_ordered(
    members: Seq<(Seq<char>, JsonView)>,
    name: Seq<char>,
    value: JsonView,
)
    requires
        are_ordered(members),
    ensures
        are_ordered(with_member(members, name, value)),
    decreases members.len(),
{
    let result = with_member(members, name, value);
    if members.len() == 0 {
    } else if members[0].0 == name {
        assert forall|i: int, j: int| 0 <= i < j < result.len() implies precedes(
            (#[trigger] result[i]).0,
            (#[trigger] result[j]).0,
        ) by {
            assert(precedes(members[i].0, members[j].0));
        }
    } else if precedes(name, members[0].0) {
        assert forall|i: int, j: int| 0 <= i < j < result.len() implies precedes(
            (#[trigger] result[i]).0,
            (#[trigger] result[j]).0,
        ) by {
            assert(result[j] == members[j - 1]);
            if i == 0 {
                if j > 1 {
                    assert(precedes(members[0].0, members[j - 1].0));
                    crate::compare::lemma_precedes_transitive(
                        name,
                        members[0].0,
                        members[j - 1].0,
                    );
                }
            } else {
                assert(result[i] == members[i - 1]);
                assert(precedes(members[i - 1].0, members[j - 1].0));
            }
        }
    } else {
        let rest = members.skip(1);
        let inner = with_member(rest, name, value);
        assert forall|i: int, j: int| 0 <= i < j < rest.len() implies precedes(
            (#[trigger] rest[i]).0,
            (#[trigger] rest[j]).0,
        ) by {
            assert(precedes(members[i + 1].0, members[j + 1].0));
        }
        lemma_put_member_ordered(rest, name, value);
        crate::compare::lemma_precedes_total(name, members[0].0);
        assert forall|i: int, j: int| 0 <= i < j < result.len() implies precedes(
            (#[trigger] result[i]).0,
            (#[trigger] result[j]).0,
        ) by {
            assert(result[j] == inner[j - 1]);
            if i == 0 {
                lemma_put_names(rest, name, value, j - 1);
                if inner[j - 1].0 != name {
                    let k = choose|k: int| 0 <= k < rest.len() && (#[trigger] rest[k]).0 == inner[j - 1].0;
                    assert(rest[k] == members[k + 1]);
                    assert(precedes(members[0].0, members[k + 1].0));
                }
            } else {
                assert(result[i] == inner[i - 1]);
            }
        }
    }
}

proof fn lemma_put_names(
    members: Seq<(Seq<char>, JsonView)>,
    name: Seq<char>,
    value: JsonView,
    at: int,
)
    requires
        0 <= at < with_member(members, name, value).len(),
    ensures
        with_member(members, name, value)[at].0 == name || exists|k: int|
            0 <= k < members.len() && (#[trigger] members[k]).0 == with_member(
                members,
                name,
                value,
            )[at].0,
    decreases members.len(),
{
    let result = with_member(members, name, value);
    if members.len() == 0 {
    } else if members[0].0 == name {
        if at > 0 {
            assert(result[at] == members[at]);
        }
    } else if precedes(name, members[0].0) {
        if at > 0 {
            assert(result[at] == members[at - 1]);
        }
    } else {
        let rest = members.skip(1);
        if at == 0 {
            assert(result[0] == members[0]);
        } else {
            let inner = with_member(rest, name, value);
            assert(result[at] == inner[at - 1]);
            lemma_put_names(rest, name, value, at - 1);
            if inner[at - 1].0 != name {
                let k = choose|k: int| 0 <= k < rest.len() && (#[trigger] rest[k]).0 == inner[at - 1].0;
                assert(members[k + 1] == rest[k]);
            }
        }
    }
}

} // verus!
