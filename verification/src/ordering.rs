//! Putting lists in order. The order of a kind of item is a total preorder;
//! items that it does not tell apart keep the order in which they came.
use vstd::prelude::*;

verus! {

/// Items with an order in which lists of them are shown.
pub trait Ranked: Sized {
    /// Whether `self` may stand before `other`.
    spec fn precedes(&self, other: &Self) -> bool;

    /// Decides whether `self` may stand before `other`.
    fn comes_before(&self, other: &Self) -> (before: bool)
        ensures
            before == self.precedes(other),
    ;

    /// Of any two items, one may stand before the other.
    proof fn precedes_total(a: &Self, b: &Self)
        ensures
            a.precedes(b) || b.precedes(a),
    ;

    /// What may stand before an item may stand before all that the item may
    /// stand before.
    proof fn precedes_transitive(a: &Self, b: &Self, c: &Self)
        requires
            a.precedes(b),
            b.precedes(c),
        ensures
            a.precedes(c),
    ;
}

/// Whether each item of a list may stand before all that follow it.
pub open spec fn in_order<T: Ranked>(items: Seq<T>) -> bool {
    forall|i: int, j: int| 0 <= i < j < items.len() ==> #[trigger] items[i].precedes(&items[j])
}

/// An ordered list with one more item, put before the first item that it
/// may stand before and at the end where there is none.
pub open spec fn placed<T: Ranked>(item: T, sorted: Seq<T>) -> Seq<T>
    decreases sorted.len(),
{
    if sorted.len() == 0 {
        seq![item]
    } else if item.precedes(&sorted.first()) {
        seq![item] + sorted
    } else {
        seq![sorted.first()] + placed(item, sorted.drop_first())
    }
}

/// A list put in order. Items that the order does not tell apart stay as
/// they were relative to each other.
pub open spec fn arranged<T: Ranked>(items: Seq<T>) -> Seq<T>
    decreases items.len(),
{
    if items.len() == 0 {
        items
    } else {
        placed(items.first(), arranged(items.drop_first()))
    }
}

/// Placing an item in a list whose first `skipped` items it may not stand
/// before leaves those items where they are.
proof fn lemma_placed_after<T: Ranked>(item: T, sorted: Seq<T>, skipped: int)
    requires
        0 <= skipped <= sorted.len(),
        forall|k: int| 0 <= k < skipped ==> !item.precedes(&#[trigger] sorted[k]),
    ensures
        placed(item, sorted) == sorted.take(skipped) + placed(item, sorted.skip(skipped)),
    decreases skipped,
{
    if skipped == 0 {
        assert(sorted.take(0) + placed(item, sorted.skip(0)) =~= placed(item, sorted.skip(0)));
        assert(sorted.skip(0) =~= sorted);
    } else {
        let rest = sorted.drop_first();
        assert(!item.precedes(&sorted[0]));
        assert forall|k: int| 0 <= k < skipped - 1 implies !item.precedes(&#[trigger] rest[k]) by {
            assert(rest[k] == sorted[k + 1]);
        }
        lemma_placed_after(item, rest, skipped - 1);
        assert(rest.skip(skipped - 1) =~= sorted.skip(skipped));
        assert(seq![sorted.first()] + (rest.take(skipped - 1) + placed(
            item,
            sorted.skip(skipped),
        )) =~= sorted.take(skipped) + placed(item, sorted.skip(skipped)));
    }
}

/// Placing an item keeps every item of the list, and adds the one placed.
pub proof fn lemma_placed_holds_the_same<T: Ranked>(item: T, sorted: Seq<T>)
    ensures
        placed(item, sorted).to_multiset() == sorted.to_multiset().insert(item),
        placed(item, sorted).len() == sorted.len() + 1,
    decreases sorted.len(),
{
    broadcast use vstd::seq_lib::to_multiset_insert;

    if sorted.len() == 0 {
        assert(placed(item, sorted) =~= sorted.insert(0, item));
    } else if item.precedes(&sorted.first()) {
        assert(placed(item, sorted) =~= sorted.insert(0, item));
    } else {
        let rest = sorted.drop_first();
        lemma_placed_holds_the_same(item, rest);
        assert(sorted =~= rest.insert(0, sorted.first()));
        assert(placed(item, sorted) =~= placed(item, rest).insert(0, sorted.first()));
        assert(placed(item, sorted).to_multiset() =~= sorted.to_multiset().insert(item));
    }
}

/// Placing an item in an ordered list gives an ordered list.
pub proof fn lemma_placed_in_order<T: Ranked>(item: T, sorted: Seq<T>)
    requires
        in_order(sorted),
    ensures
        in_order(placed(item, sorted)),
    decreases sorted.len(),
{
    if sorted.len() == 0 {
    } else if item.precedes(&sorted.first()) {
        let list = placed(item, sorted);
        assert forall|i: int, j: int| 0 <= i < j < list.len() implies #[trigger] list[i].precedes(
            &list[j],
        ) by {
            if i == 0 {
                if j > 1 {
                    assert(sorted[0].precedes(&sorted[j - 1]));
                    T::precedes_transitive(&item, &sorted[0], &sorted[j - 1]);
                }
            } else {
                assert(sorted[i - 1].precedes(&sorted[j - 1]));
            }
        }
    } else {
        let head = sorted.first();
        let rest = sorted.drop_first();
        assert forall|i: int, j: int| 0 <= i < j < rest.len() implies #[trigger] rest[i].precedes(
            &rest[j],
        ) by {
            assert(sorted[i + 1].precedes(&sorted[j + 1]));
        }
        lemma_placed_in_order(item, rest);
        lemma_placed_holds_the_same(item, rest);
        let tail = placed(item, rest);
        let list = placed(item, sorted);
        T::precedes_total(&item, &head);
        assert forall|i: int, j: int| 0 <= i < j < list.len() implies #[trigger] list[i].precedes(
            &list[j],
        ) by {
            if i == 0 {
                let other = tail[j - 1];
                assert(tail.to_multiset().count(other) > 0) by {
                    broadcast use vstd::seq_lib::to_multiset_contains;

                    assert(tail.contains(other));
                }
                if other != item {
                    assert(rest.to_multiset().count(other) > 0);
                    assert(rest.contains(other)) by {
                        broadcast use vstd::seq_lib::to_multiset_contains;

                    }
                    let at = choose|at: int| 0 <= at < rest.len() && rest[at] == other;
                    assert(sorted[0].precedes(&sorted[at + 1]));
                }
            } else {
                assert(tail[i - 1].precedes(&tail[j - 1]));
            }
        }
    }
}

/// A list put in order is in order.
pub proof fn lemma_arranged_in_order<T: Ranked>(items: Seq<T>)
    ensures
        in_order(arranged(items)),
    decreases items.len(),
{
    if items.len() > 0 {
        lemma_arranged_in_order(items.drop_first());
        lemma_placed_in_order(items.first(), arranged(items.drop_first()));
    }
}

/// A list put in order holds what the list held, each item as often.
pub proof fn lemma_arranged_holds_the_same<T: Ranked>(items: Seq<T>)
    ensures
        arranged(items).to_multiset() == items.to_multiset(),
        arranged(items).len() == items.len(),
    decreases items.len(),
{
    broadcast use vstd::seq_lib::to_multiset_insert;

    if items.len() > 0 {
        let rest = items.drop_first();
        lemma_arranged_holds_the_same(rest);
        lemma_placed_holds_the_same(items.first(), arranged(rest));
        assert(items =~= rest.insert(0, items.first()));
    }
}

/// Every item of a list put in order is an item of the list.
pub proof fn lemma_arranged_item_was_there<T: Ranked>(items: Seq<T>, at: int)
    requires
        0 <= at < arranged(items).len(),
    ensures
        exists|from: int| 0 <= from < items.len() && items[from] == arranged(items)[at],
{
    broadcast use vstd::seq_lib::to_multiset_contains;

    let sorted = arranged(items);
    lemma_arranged_holds_the_same(items);
    assert(sorted.contains(sorted[at]));
    assert(sorted.to_multiset().count(sorted[at]) > 0);
    assert(items.contains(sorted[at]));
}

/// Every item of a list is an item of the list put in order.
pub proof fn lemma_item_is_arranged<T: Ranked>(items: Seq<T>, at: int)
    requires
        0 <= at < items.len(),
    ensures
        exists|to: int| 0 <= to < arranged(items).len() && arranged(items)[to] == items[at],
{
    broadcast use vstd::seq_lib::to_multiset_contains;

    let sorted = arranged(items);
    lemma_arranged_holds_the_same(items);
    assert(items.contains(items[at]));
    assert(items.to_multiset().count(items[at]) > 0);
    assert(sorted.contains(items[at]));
}

/// A list that holds no item twice holds none twice when put in order.
pub proof fn lemma_arranged_keeps_items_apart<T: Ranked>(items: Seq<T>)
    requires
        items.no_duplicates(),
    ensures
        arranged(items).no_duplicates(),
{
    lemma_arranged_holds_the_same(items);
    items.lemma_multiset_has_no_duplicates();
    arranged(items).lemma_multiset_has_no_duplicates_conv();
}

/// Puts an item into an ordered list.
pub fn place<T: Ranked>(item: T, sorted: &mut Vec<T>)
    ensures
        final(sorted)@ == placed(item, old(sorted)@),
{
    let mut at: usize = 0;
    while at < sorted.len() && !item.comes_before(&sorted[at])
        invariant
            at <= sorted.len(),
            sorted@ == old(sorted)@,
            forall|k: int| 0 <= k < at ==> !item.precedes(&#[trigger] sorted@[k]),
        decreases sorted.len() - at,
    {
        at += 1;
    }
    proof {
        let list = sorted@;
        lemma_placed_after(item, list, at as int);
        if at as int == list.len() {
            assert(list.skip(at as int) =~= Seq::<T>::empty());
            assert(list.take(at as int) =~= list);
            assert(list + seq![item] =~= list.insert(at as int, item));
        } else {
            let rest = list.skip(at as int);
            assert(rest.first() == list[at as int]);
            assert(list.take(at as int) + (seq![item] + rest) =~= list.insert(at as int, item));
        }
    }
    sorted.insert(at, item);
}

/// Puts a list in order.
pub fn arrange<T: Ranked>(items: Vec<T>) -> (sorted: Vec<T>)
    ensures
        sorted@ == arranged(items@),
        in_order(sorted@),
        sorted@.to_multiset() == items@.to_multiset(),
{
    let mut rest = items;
    let mut sorted: Vec<T> = Vec::new();
    loop
        invariant
            rest@ == items@.take(rest@.len() as int),
            rest@.len() <= items@.len(),
            sorted@ == arranged(items@.skip(rest@.len() as int)),
        decreases rest@.len(),
    {
        let ghost before = rest@.len() as int;
        match rest.pop() {
            None => {
                proof {
                    assert(items@.skip(0) =~= items@);
                    lemma_arranged_in_order(items@);
                    lemma_arranged_holds_the_same(items@);
                }
                return sorted;
            },
            Some(item) => {
                proof {
                    let tail = items@.skip(before - 1);
                    assert(item == items@[before - 1]);
                    assert(tail.first() == item);
                    assert(tail.drop_first() =~= items@.skip(before));
                    assert(rest@ =~= items@.take(before - 1));
                }
                place(item, &mut sorted);
            },
        }
    }
}

} // verus!
