//! How the laws speak of members, forms, links and texts.
use vstd::prelude::*;
use crate::compare::precedes;
use crate::fields::{id_of, link_name, linked_member, reviewer_member};
use crate::json::{member_in, JsonView};
use crate::order::{arranged, key_precedes, order_of, placed, KeyView};
use crate::split::{lemma_split_not_empty, split_on};
use crate::repository::service_url;
use crate::text::{trim_end_of, trim_start_of, without_suffix};

verus! {

/// Whether a form has a value under a name, and no other value under that name.
pub open spec fn sends(
    pairs: Seq<(Seq<char>, Seq<char>)>,
    name: Seq<char>,
    value: Seq<char>,
) -> bool {
    &&& exists|i: int| 0 <= i < pairs.len() && (#[trigger] pairs[i]).0 == name
    &&& forall|i: int| 0 <= i < pairs.len() && (#[trigger] pairs[i]).0 == name ==> pairs[i].1 == value
}

/// Whether a form has nothing under a name.
pub open spec fn sends_no(pairs: Seq<(Seq<char>, Seq<char>)>, name: Seq<char>) -> bool {
    forall|i: int| 0 <= i < pairs.len() ==> (#[trigger] pairs[i]).0 != name
}

/// Whether a form has an optional value under a name: the value, or nothing for none.
pub open spec fn sends_option(
    pairs: Seq<(Seq<char>, Seq<char>)>,
    name: Seq<char>,
    value: Option<Seq<char>>,
) -> bool {
    match value {
        Some(value) => sends(pairs, name, value),
        None => sends_no(pairs, name),
    }
}

/// Whether a form has values under a name, in their order and next to each other, and nothing else
/// under that name.
pub open spec fn sends_list(
    pairs: Seq<(Seq<char>, Seq<char>)>,
    name: Seq<char>,
    values: Seq<Seq<char>>,
) -> bool {
    exists|from: int| #[trigger] sends_list_at(pairs, name, values, from)
}

/// Whether a form has values under a name from an index on, and nothing else under that name.
pub open spec fn sends_list_at(
    pairs: Seq<(Seq<char>, Seq<char>)>,
    name: Seq<char>,
    values: Seq<Seq<char>>,
    from: int,
) -> bool {
    &&& 0 <= from && from + values.len() <= pairs.len()
    &&& forall|i: int| 0 <= i < values.len() ==> #[trigger] pairs[from + i] == (name, values[i])
    &&& forall|i: int|
        0 <= i < pairs.len() && (#[trigger] pairs[i]).0 == name ==> from <= i < from + values.len()
}

/// The value of a member is that of the first with its name.
pub proof fn lemma_member_at(members: Seq<(Seq<char>, JsonView)>, at: int)
    requires
        0 <= at < members.len(),
        forall|i: int| 0 <= i < at ==> (#[trigger] members[i]).0 != members[at].0,
    ensures
        member_in(members, members[at].0) == Some(members[at].1),
        JsonView::Object(members).get(members[at].0) == Some(members[at].1),
    decreases at,
{
    if at > 0 {
        let rest = members.skip(1);
        assert(members[0].0 != members[at].0);
        assert forall|i: int| 0 <= i < at - 1 implies (#[trigger] rest[i]).0 != rest[at - 1].0 by {
            assert(rest[i] == members[i + 1]);
        }
        assert(rest[at - 1] == members[at]);
        lemma_member_at(rest, at - 1);
    }
}

/// An object without a member of a name has no value there.
pub proof fn lemma_member_missing(members: Seq<(Seq<char>, JsonView)>, name: Seq<char>)
    requires
        forall|i: int| 0 <= i < members.len() ==> (#[trigger] members[i]).0 != name,
    ensures
        member_in(members, name) is None,
        JsonView::Object(members).get(name) is None,
    decreases members.len(),
{
    if members.len() > 0 {
        let rest = members.skip(1);
        assert forall|i: int| 0 <= i < rest.len() implies (#[trigger] rest[i]).0 != name by {
            assert(rest[i] == members[i + 1]);
        }
        assert(members[0].0 != name);
        lemma_member_missing(rest, name);
    }
}

/// The member for who reviews is that of the link to them, without its ending.
pub proof fn lemma_reviewer_member()
    ensures
        reviewer_member() + "_link"@ == "reviewer_link"@,
        reviewer_member().len() == 8,
        reviewer_member()[0] == 'r',
        reviewer_member()[1] == 'e',
        reviewer_member()[2] == 'v',
{
    reveal_strlit("reviewer_link");
    reveal_strlit("_link");
    let name = "reviewer_link"@;
    assert(name.skip(8) =~= "_link"@);
    assert("_link"@.is_suffix_of(name));
    assert(without_suffix(name, "_link"@) == Some(name.take(8)));
    assert(linked_member(name) == name.take(8));
    assert(name.take(8) + "_link"@ =~= name);
}

pub(crate) proof fn lemma_last_of_split(front: Seq<char>, separator: char, piece: Seq<char>)
    requires
        !piece.contains(separator),
    ensures
        split_on(front + seq![separator] + piece, separator).last() == piece,
    decreases piece.len(),
{
    let text = front + seq![separator] + piece;
    if piece.len() == 0 {
        assert(text.last() == separator);
        assert(piece =~= Seq::empty());
    } else {
        let shorter = piece.drop_last();
        assert(text.drop_last() =~= front + seq![separator] + shorter);
        assert(text.last() == piece.last());
        assert(piece.last() == piece[piece.len() - 1]);
        assert(!shorter.contains(separator)) by {
            if shorter.contains(separator) {
                let i = choose|i: int| 0 <= i < shorter.len() && shorter[i] == separator;
                assert(piece[i] == separator);
            }
        }
        lemma_last_of_split(front, separator, shorter);
        lemma_split_not_empty(text.drop_last(), separator);
        assert(shorter.push(piece.last()) =~= piece);
    }
}

/// A link names what stands behind its last slash. A slash at its end does not count.
pub proof fn lemma_link_name(front: Seq<char>, name: Seq<char>)
    requires
        name.len() > 0,
        !name.contains('/'),
    ensures
        link_name(front + seq!['/'] + name) == name,
        link_name(front + seq!['/'] + name + seq!['/']) == name,
{
    let link = front + seq!['/'] + name;
    assert(name.last() == name[name.len() - 1]);
    assert(link.last() == name.last());
    assert(trim_end_of(link, '/') == link);
    let longer = link + seq!['/'];
    assert(longer.last() == '/');
    assert(longer.drop_last() =~= link);
    assert(trim_end_of(longer, '/') == link);
    lemma_last_of_split(front, '/', name);
}

/// The identifier of a resource is the last segment of its own link.
pub proof fn lemma_id_is_last_segment(resource: JsonView, front: Seq<char>, id: Seq<char>)
    requires
        id.len() > 0,
        !id.contains('/'),
        resource.text("self_link"@) == Some(front + seq!['/'] + id),
    ensures
        id_of(resource) == Some(id),
{
    lemma_link_name(front, id);
}

/// The first characters that differ decide which of two texts stands before the other, and a
/// text stands before all that begin with it.
pub proof fn lemma_first_difference_decides(
    front: Seq<char>,
    left: Seq<char>,
    right: Seq<char>,
)
    ensures
        left.len() > 0 && right.len() > 0 && left[0] < right[0] ==> precedes(
            front + left,
            front + right,
        ) && !precedes(front + right, front + left),
        right.len() > 0 ==> precedes(front, front + right) && !precedes(front + right, front),
    decreases front.len(),
{
    if front.len() == 0 {
        assert(front + left =~= left);
        assert(front + right =~= right);
    } else {
        let rest = front.skip(1);
        lemma_first_difference_decides(rest, left, right);
        assert((front + left).skip(1) =~= rest + left);
        assert((front + right).skip(1) =~= rest + right);
        assert((front + left)[0] == front[0] && (front + right)[0] == front[0]);
    }
}

proof fn lemma_placed_multiset(items: Seq<JsonView>, order: Seq<int>, keys: Seq<KeyView>, index: int)
    ensures
        arranged(items, placed(order, keys, index)).to_multiset() =~= arranged(
            items,
            order,
        ).to_multiset().insert(items[index]),
    decreases order.len(),
{
    broadcast use vstd::seq_lib::group_to_multiset_ensures;

    let longer = arranged(items, placed(order, keys, index));
    let shorter = arranged(items, order);
    if order.len() > 0 && key_precedes(keys[index], keys[order.last()]) {
        lemma_placed_multiset(items, order.drop_last(), keys, index);
        let before = arranged(items, order.drop_last());
        assert(shorter =~= before.push(items[order.last()]));
        assert(longer =~= arranged(items, placed(order.drop_last(), keys, index)).push(
            items[order.last()],
        ));
    } else {
        assert(longer =~= shorter.push(items[index]));
    }
}

/// Arranging items by their keys neither drops nor adds any.
pub proof fn lemma_arranged_is_same(items: Seq<JsonView>, keys: Seq<KeyView>)
    requires
        items.len() == keys.len(),
    ensures
        arranged(items, order_of(keys)).to_multiset() =~= items.to_multiset(),
        arranged(items, order_of(keys)).len() == items.len(),
    decreases items.len(),
{
    broadcast use vstd::seq_lib::group_to_multiset_ensures;

    crate::order::lemma_order_is_permutation(keys);
    if items.len() == 0 {
        assert(arranged(items, order_of(keys)) =~= items);
    } else {
        let front = items.drop_last();
        let before = keys.drop_last();
        lemma_arranged_is_same(front, before);
        crate::order::lemma_order_is_permutation(before);
        assert(arranged(items, order_of(before)) =~= arranged(front, order_of(before)));
        lemma_placed_multiset(items, order_of(before), keys, items.len() - 1);
        assert(front.push(items.last()) =~= items);
    }
}

/// The URL of a path of the web service is the base, a slash and the path, however many slashes
/// stand between them.
pub proof fn lemma_service_url(base: Seq<char>, path: Seq<char>)
    requires
        base.len() == 0 || base.last() != '/',
        path.len() == 0 || path[0] != '/',
    ensures
        service_url(base, path) == base + "/"@ + path,
        service_url(base, "/"@ + path) == base + "/"@ + path,
        service_url(base + "/"@, "/"@ + path) == base + "/"@ + path,
{
    reveal_strlit("/");
    let slashed = "/"@ + path;
    assert(slashed[0] == '/');
    assert(slashed.skip(1) =~= path);
    let closed = base + "/"@;
    assert(closed.last() == '/');
    assert(closed.drop_last() =~= base);
    assert(trim_start_of(slashed, '/') == trim_start_of(path, '/'));
    assert(trim_end_of(closed, '/') == trim_end_of(base, '/'));
}

} // verus!
