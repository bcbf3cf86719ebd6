//! A stable order by keys.
use vstd::prelude::*;
use crate::compare::{
    lemma_precedes_irreflexive, lemma_precedes_total, lemma_precedes_transitive, precedes,
    text_precedes,
};
use crate::text::opt_view;

verus! {

/// What an item is ordered by: first a rank, then a text, where none comes before any, and last
/// a number.
pub struct Key {
    pub rank: u64,
    pub text: Option<String>,
    pub number: u64,
}

/// What a key holds.
#[verifier::ext_equal]
pub struct KeyView {
    pub rank: u64,
    pub text: Option<Seq<char>>,
    pub number: u64,
}

impl View for Key {
    type V = KeyView;

    open spec fn view(&self) -> KeyView {
        KeyView { rank: self.rank, text: opt_view(self.text), number: self.number }
    }
}

/// The keys that a list holds.
pub open spec fn keys_view(keys: Seq<Key>) -> Seq<KeyView> {
    keys.map_values(|key: Key| key@)
}

/// Whether an optional text comes before another.
pub open spec fn option_precedes(left: Option<Seq<char>>, right: Option<Seq<char>>) -> bool {
    match (left, right) {
        (Some(left), Some(right)) => precedes(left, right),
        (None, Some(_)) => true,
        _ => false,
    }
}

/// Whether a key comes before another.
pub open spec fn key_precedes(left: KeyView, right: KeyView) -> bool {
    left.rank < right.rank || (left.rank == right.rank && (option_precedes(left.text, right.text) || (
    left.text == right.text && left.number < right.number)))
}

/// An order with one more index, behind those whose keys do not come after its key.
pub open spec fn placed(order: Seq<int>, keys: Seq<KeyView>, index: int) -> Seq<int>
    decreases order.len(),
{
    if order.len() > 0 && key_precedes(keys[index], keys[order.last()]) {
        placed(order.drop_last(), keys, index).push(order.last())
    } else {
        order.push(index)
    }
}

/// The indices of the keys in their order. Equal keys keep theirs.
pub open spec fn order_of(keys: Seq<KeyView>) -> Seq<int>
    decreases keys.len(),
{
    if keys.len() == 0 {
        Seq::empty()
    } else {
        placed(order_of(keys.drop_last()), keys, keys.len() - 1)
    }
}

/// The indices that a list holds.
pub open spec fn indices(order: Seq<usize>) -> Seq<int> {
    order.map_values(|index: usize| index as int)
}

/// Items in an order.
pub open spec fn arranged<T>(items: Seq<T>, order: Seq<int>) -> Seq<T> {
    order.map_values(|index: int| items[index])
}

fn precedes_option(left: &Option<String>, right: &Option<String>) -> (r: bool)
    ensures
        r == option_precedes(opt_view(*left), opt_view(*right)),
{
    match (left, right) {
        (Some(left), Some(right)) => text_precedes(left.as_str(), right.as_str()),
        (None, Some(_)) => true,
        _ => false,
    }
}

fn same_option(left: &Option<String>, right: &Option<String>) -> (r: bool)
    ensures
        r == (opt_view(*left) == opt_view(*right)),
{
    match (left, right) {
        (Some(left), Some(right)) => crate::text::same(left.as_str(), right.as_str()),
        (None, None) => true,
        _ => false,
    }
}

fn precedes_key(left: &Key, right: &Key) -> (r: bool)
    ensures
        r == key_precedes(left@, right@),
{
    left.rank < right.rank || (left.rank == right.rank && (precedes_option(&left.text, &right.text)
        || (same_option(&left.text, &right.text) && left.number < right.number)))
}

fn place(order: &mut Vec<usize>, keys: &Vec<Key>, index: usize)
    requires
        index < keys@.len(),
        forall|p: int| 0 <= p < old(order)@.len() ==> #[trigger] old(order)@[p] < index,
    ensures
        indices(final(order)@) == placed(indices(old(order)@), keys_view(keys@), index as int),
        forall|p: int| 0 <= p < final(order)@.len() ==> #[trigger] final(order)@[p] <= index,
{
    let ghost all = indices(order@);
    let ghost views = keys_view(keys@);
    let mut at: usize = order.len();
    assert(all.take(all.len() as int) =~= all);
    assert(all.skip(all.len() as int) =~= Seq::empty());
    assert(placed(all.take(all.len() as int), views, index as int) + all.skip(all.len() as int) =~= placed(
        all,
        views,
        index as int,
    ));
    while at > 0 && precedes_key(&keys[index], &keys[order[at - 1]])
        invariant
            at <= order@.len(),
            order@ == old(order)@,
            all == indices(order@),
            views == keys_view(keys@),
            index < keys@.len(),
            forall|p: int| 0 <= p < order@.len() ==> #[trigger] order@[p] < index,
            placed(all, views, index as int) == placed(all.take(at as int), views, index as int)
                + all.skip(at as int),
        decreases at,
    {
        let ghost front = all.take(at as int);
        assert(front.drop_last() =~= all.take(at - 1));
        assert(front.last() == all[at - 1]);
        assert(views[front.last()] == keys@[order@[at - 1] as int]@);
        assert(placed(front, views, index as int) + all.skip(at as int) =~= placed(
            all.take(at - 1),
            views,
            index as int,
        ) + all.skip(at - 1));
        at = at - 1;
    }
    proof {
        let front = all.take(at as int);
        if at > 0 {
            assert(front.last() == all[at - 1]);
            assert(views[front.last()] == keys@[order@[at - 1] as int]@);
        }
        assert(placed(front, views, index as int) == front.push(index as int));
    }
    order.insert(at, index);
    assert(indices(order@) =~= all.take(at as int).push(index as int) + all.skip(at as int));
}

/// The indices of the keys in their order. Equal keys keep theirs.
pub fn sort_order(keys: &Vec<Key>) -> (r: Vec<usize>)
    ensures
        indices(r@) == order_of(keys_view(keys@)),
        r@.len() == keys@.len(),
        forall|p: int| 0 <= p < r@.len() ==> #[trigger] r@[p] < keys@.len(),
{
    let mut order: Vec<usize> = Vec::new();
    let ghost views = keys_view(keys@);
    assert(views.take(0) =~= Seq::empty());
    assert(indices(order@) =~= Seq::empty());
    for i in 0..keys.len()
        invariant
            views == keys_view(keys@),
            indices(order@) == order_of(views.take(i as int)),
            forall|p: int| 0 <= p < order@.len() ==> #[trigger] order@[p] < i,
    {
        proof {
            assert(views.take(i + 1).drop_last() =~= views.take(i as int));
            lemma_placed_prefix(indices(order@), views.take(i + 1), views, i as int);
        }
        place(&mut order, keys, i);
    }
    proof {
        assert(views.take(views.len() as int) =~= views);
        lemma_order_is_permutation(views);
        assert(indices(order@).len() == order@.len());
    }
    order
}

proof fn lemma_placed_prefix(order: Seq<int>, short: Seq<KeyView>, long: Seq<KeyView>, index: int)
    requires
        0 <= index < short.len() <= long.len(),
        short == long.take(short.len() as int),
        forall|p: int| 0 <= p < order.len() ==> 0 <= #[trigger] order[p] < short.len(),
    ensures
        placed(order, short, index) == placed(order, long, index),
    decreases order.len(),
{
    if order.len() > 0 {
        assert(short[order.last()] == long[order.last()]);
        assert(short[index] == long[index]);
        lemma_placed_prefix(order.drop_last(), short, long, index);
    }
}

/// The order between keys is irreflexive, and of two keys that differ one comes first.
pub proof fn lemma_key_order_total(a: KeyView, b: KeyView)
    ensures
        !key_precedes(a, a),
        a == b || key_precedes(a, b) || key_precedes(b, a),
{
    if let Some(text) = a.text {
        lemma_precedes_irreflexive(text);
        if let Some(other) = b.text {
            lemma_precedes_total(text, other);
        }
    }
}

/// The order between keys is transitive.
pub proof fn lemma_key_order_transitive(a: KeyView, b: KeyView, c: KeyView)
    requires
        key_precedes(a, b),
        key_precedes(b, c),
    ensures
        key_precedes(a, c),
{
    if let (Some(x), Some(y)) = (a.text, b.text) {
        if let Some(z) = c.text {
            if precedes(x, y) && precedes(y, z) {
                lemma_precedes_transitive(x, y, z);
            }
        }
    }
}

proof fn lemma_placed(order: Seq<int>, keys: Seq<KeyView>, index: int)
    requires
        0 <= index < keys.len(),
        order.no_duplicates(),
        forall|p: int| 0 <= p < order.len() ==> 0 <= #[trigger] order[p] < index,
    ensures
        placed(order, keys, index).len() == order.len() + 1,
        placed(order, keys, index).no_duplicates(),
        forall|p: int|
            0 <= p < placed(order, keys, index).len() ==> 0 <= #[trigger] placed(
                order,
                keys,
                index,
            )[p] <= index,
        forall|i: int| #[trigger]
            placed(order, keys, index).contains(i) <==> order.contains(i) || i == index,
    decreases order.len(),
{
    let result = placed(order, keys, index);
    if order.len() > 0 && key_precedes(keys[index], keys[order.last()]) {
        let front = order.drop_last();
        let inner = placed(front, keys, index);
        lemma_placed(front, keys, index);
        assert(result == inner.push(order.last()));
        assert forall|i: int| #[trigger] result.contains(i) <==> order.contains(i) || i == index by {
            if result.contains(i) {
                let p = choose|p: int| 0 <= p < result.len() && result[p] == i;
                if p < inner.len() {
                    assert(inner[p] == i);
                    assert(inner.contains(i));
                    if front.contains(i) {
                        let q = choose|q: int| 0 <= q < front.len() && front[q] == i;
                        assert(order[q] == i);
                    }
                } else {
                    assert(order[order.len() - 1] == i);
                }
            }
            if order.contains(i) {
                let q = choose|q: int| 0 <= q < order.len() && order[q] == i;
                if q < front.len() {
                    assert(front[q] == i);
                    assert(inner.contains(i));
                    let p = choose|p: int| 0 <= p < inner.len() && inner[p] == i;
                    assert(result[p] == i);
                } else {
                    assert(result[result.len() - 1] == i);
                }
            }
            if i == index {
                assert(inner.contains(i));
                let p = choose|p: int| 0 <= p < inner.len() && inner[p] == i;
                assert(result[p] == i);
            }
        }
        assert(!inner.contains(order.last())) by {
            if front.contains(order.last()) {
                let q = choose|q: int| 0 <= q < front.len() && front[q] == order.last();
                assert(order[q] == order[order.len() - 1]);
            }
            assert(order[order.len() - 1] < index);
        }
        assert forall|p: int, q: int| 0 <= p < result.len() && 0 <= q < result.len() && p != q implies result[p] != result[q] by {
            if p < inner.len() && q < inner.len() {
                assert(inner[p] != inner[q]);
            } else if p < inner.len() {
                assert(inner.contains(inner[p]));
            } else {
                assert(inner.contains(inner[q]));
            }
        }
        assert forall|p: int| 0 <= p < result.len() implies 0 <= #[trigger] result[p] <= index by {
            if p < inner.len() {
                assert(result[p] == inner[p]);
            } else {
                assert(result[p] == order[order.len() - 1]);
            }
        }
    } else {
        assert(result == order.push(index));
        assert forall|i: int| #[trigger] result.contains(i) <==> order.contains(i) || i == index by {
            if result.contains(i) {
                let p = choose|p: int| 0 <= p < result.len() && result[p] == i;
                if p < order.len() {
                    assert(order[p] == i);
                }
            }
            if order.contains(i) {
                let q = choose|q: int| 0 <= q < order.len() && order[q] == i;
                assert(result[q] == i);
            }
            if i == index {
                assert(result[result.len() - 1] == i);
            }
        }
    }
}

/// The order lists every index exactly once.
pub proof fn lemma_order_is_permutation(keys: Seq<KeyView>)
    ensures
        order_of(keys).len() == keys.len(),
        order_of(keys).no_duplicates(),
        forall|p: int| 0 <= p < order_of(keys).len() ==> 0 <= #[trigger] order_of(keys)[p] < keys.len(),
        forall|i: int| #[trigger] order_of(keys).contains(i) <==> 0 <= i < keys.len(),
    decreases keys.len(),
{
    if keys.len() > 0 {
        let front = keys.drop_last();
        lemma_order_is_permutation(front);
        lemma_placed(order_of(front), keys, keys.len() - 1);
    }
}

proof fn lemma_placed_sorted(order: Seq<int>, keys: Seq<KeyView>, index: int)
    requires
        0 <= index < keys.len(),
        order.no_duplicates(),
        forall|p: int| 0 <= p < order.len() ==> 0 <= #[trigger] order[p] < index,
        forall|p: int, q: int|
            0 <= p < q < order.len() ==> in_order(keys, #[trigger] order[p], #[trigger] order[q]),
    ensures
        forall|p: int, q: int|
            0 <= p < q < placed(order, keys, index).len() ==> in_order(
                keys,
                #[trigger] placed(order, keys, index)[p],
                #[trigger] placed(order, keys, index)[q],
            ),
    decreases order.len(),
{
    let result = placed(order, keys, index);
    if order.len() > 0 && key_precedes(keys[index], keys[order.last()]) {
        let front = order.drop_last();
        let inner = placed(front, keys, index);
        assert forall|p: int, q: int| 0 <= p < q < front.len() implies in_order(
            keys,
            #[trigger] front[p],
            #[trigger] front[q],
        ) by {
            assert(front[p] == order[p] && front[q] == order[q]);
        }
        lemma_placed_sorted(front, keys, index);
        lemma_placed(front, keys, index);
        assert forall|p: int, q: int| 0 <= p < q < result.len() implies in_order(
            keys,
            #[trigger] result[p],
            #[trigger] result[q],
        ) by {
            if q < inner.len() {
                assert(result[p] == inner[p] && result[q] == inner[q]);
            } else {
                assert(result[p] == inner[p]);
                assert(inner.contains(inner[p]));
                if inner[p] == index {
                    lemma_key_order_total(keys[index], keys[order.last()]);
                    if key_precedes(keys[order.last()], keys[index]) {
                        lemma_key_order_transitive(keys[index], keys[order.last()], keys[index]);
                    }
                } else {
                    let at = choose|at: int| 0 <= at < front.len() && front[at] == inner[p];
                    assert(order[at] == inner[p]);
                    assert(order[order.len() - 1] == result[q]);
                }
            }
        }
    } else {
        assert(result == order.push(index));
        assert forall|p: int, q: int| 0 <= p < q < result.len() implies in_order(
            keys,
            #[trigger] result[p],
            #[trigger] result[q],
        ) by {
            if q < order.len() {
                assert(result[p] == order[p] && result[q] == order[q]);
            } else {
                let last = order[order.len() - 1];
                assert(result[p] == order[p]);
                if p < order.len() - 1 {
                    assert(in_order(keys, order[p], last));
                    let (a, b, c) = (keys[index], keys[order[p]], keys[last]);
                    lemma_key_order_total(b, c);
                    lemma_key_order_total(a, c);
                    if key_precedes(a, b) {
                        if b == c {
                        } else if key_precedes(b, c) {
                            lemma_key_order_transitive(a, b, c);
                        }
                    }
                }
            }
        }
    }
}

/// Whether one index may stand before another: its key does not come after the other's, and
/// where the keys are equal it is the smaller index.
pub open spec fn in_order(keys: Seq<KeyView>, first: int, second: int) -> bool {
    !key_precedes(keys[second], keys[first]) && (keys[first] == keys[second] ==> first < second)
}

/// The order is sorted by the keys, and indices with equal keys stand in their own order.
pub proof fn lemma_order_is_sorted_and_stable(keys: Seq<KeyView>, p: int, q: int)
    requires
        0 <= p < q < keys.len(),
    ensures
        in_order(keys, order_of(keys)[p], order_of(keys)[q]),
{
    lemma_order_is_permutation(keys);
    lemma_order_sorted(keys);
}

proof fn lemma_order_sorted(keys: Seq<KeyView>)
    ensures
        forall|p: int, q: int|
            0 <= p < q < order_of(keys).len() ==> in_order(
                keys,
                #[trigger] order_of(keys)[p],
                #[trigger] order_of(keys)[q],
            ),
    decreases keys.len(),
{
    if keys.len() > 0 {
        let front = keys.drop_last();
        let order = order_of(front);
        lemma_order_sorted(front);
        lemma_order_is_permutation(front);
        assert forall|p: int, q: int| 0 <= p < q < order.len() implies in_order(
            keys,
            #[trigger] order[p],
            #[trigger] order[q],
        ) by {
            assert(in_order(front, order[p], order[q]));
            assert(front[order[p]] == keys[order[p]] && front[order[q]] == keys[order[q]]);
        }
        lemma_placed_sorted(order, keys, keys.len() - 1);
    }
}

} // verus!
