//! Lists of modelled values.
//!
//! A `Vec<T>` is modelled as the sequence of its items' models.

use vstd::prelude::*;
use crate::text::{same, Text};

verus! {

/// An empty list.
pub fn no_items<T: DeepView>() -> (r: Vec<T>)
    ensures
        r.deep_view() == Seq::<T::V>::empty(),
{
    let r: Vec<T> = Vec::new();
    assert(r.deep_view() =~= Seq::<T::V>::empty());
    r
}

/// Adds `item` at the end of `list`.
pub fn put<T: DeepView>(list: &mut Vec<T>, item: T)
    ensures
        final(list).deep_view() == old(list).deep_view().push(item.deep_view()),
{
    let ghost before = list.deep_view();
    list.push(item);
    assert(list.deep_view() =~= before.push(item.deep_view()));
}

/// Moves the items of `more` to the end of `list`.
pub fn put_all<T: DeepView>(list: &mut Vec<T>, more: Vec<T>)
    ensures
        final(list).deep_view() == old(list).deep_view() + more.deep_view(),
{
    let ghost before = list.deep_view();
    let mut more = more;
    let ghost added = more.deep_view();
    list.append(&mut more);
    assert(list.deep_view() =~= before + added);
}

/// A list with one item.
pub fn one<T: DeepView>(item: T) -> (r: Vec<T>)
    ensures
        r.deep_view() == seq![item.deep_view()],
{
    let mut r: Vec<T> = Vec::new();
    r.push(item);
    assert(r.deep_view() =~= seq![item.deep_view()]);
    r
}

/// A copy of a list of strings.
pub fn copy_strings(list: &Vec<String>) -> (r: Vec<String>)
    ensures
        r.deep_view() == list.deep_view(),
{
    let mut r: Vec<String> = Vec::new();
    let mut i: usize = 0;
    while i < list.len()
        invariant
            i <= list@.len(),
            r@.len() == i,
            forall|j: int| 0 <= j < i ==> #[trigger] r@[j]@ == list@[j]@,
        decreases list@.len() - i,
    {
        r.push(list[i].clone());
        i = i + 1;
    }
    assert(r.deep_view() =~= list.deep_view());
    r
}

/// A copy of a list of bytes.
pub fn copy_bytes(list: &Vec<u8>) -> (r: Vec<u8>)
    ensures
        r@ == list@,
{
    let mut r: Vec<u8> = Vec::new();
    let mut i: usize = 0;
    while i < list.len()
        invariant
            i <= list@.len(),
            r@ == list@.take(i as int),
        decreases list@.len() - i,
    {
        r.push(list[i]);
        i = i + 1;
        assert(list@.take(i as int) =~= list@.take(i - 1).push(list@[i - 1]));
    }
    assert(list@.take(i as int) =~= list@);
    r
}

/// Whether `item` is one of `list`.
pub fn has_string(list: &Vec<String>, item: &str) -> (r: bool)
    ensures
        r == list.deep_view().contains(item@),
{
    let mut i: usize = 0;
    while i < list.len()
        invariant
            i <= list@.len(),
            forall|j: int| 0 <= j < i ==> #[trigger] list.deep_view()[j] != item@,
        decreases list@.len() - i,
    {
        if same(list[i].as_str(), item) {
            assert(list.deep_view()[i as int] == item@);
            return true;
        }
        i = i + 1;
    }
    false
}

/// Whether `item` is one of `list`.
pub fn has_index(list: &Vec<usize>, item: usize) -> (r: bool)
    ensures
        r == list@.contains(item),
{
    let mut i: usize = 0;
    while i < list.len()
        invariant
            i <= list@.len(),
            forall|j: int| 0 <= j < i ==> #[trigger] list@[j] != item,
        decreases list@.len() - i,
    {
        if list[i] == item {
            return true;
        }
        i = i + 1;
    }
    false
}

/// The items without repetition, each where it first stood.
pub open spec fn distinct(items: Seq<Text>) -> Seq<Text>
    decreases items.len(),
{
    if items.len() == 0 {
        Seq::empty()
    } else {
        let before = distinct(items.drop_last());
        if before.contains(items.last()) {
            before
        } else {
            before.push(items.last())
        }
    }
}

/// The items without repetition, each where it first stood.
pub fn drop_repeats(items: &Vec<String>) -> (r: Vec<String>)
    ensures
        r.deep_view() == distinct(items.deep_view()),
{
    let ghost model = items.deep_view();
    let mut r: Vec<String> = no_items();
    let mut i: usize = 0;
    assert(model.take(0) =~= Seq::<Text>::empty());
    while i < items.len()
        invariant
            i <= items@.len(),
            model == items.deep_view(),
            r.deep_view() == distinct(model.take(i as int)),
        decreases items@.len() - i,
    {
        proof {
            assert(model.take(i + 1).drop_last() =~= model.take(i as int));
            assert(model.take(i + 1).last() == items@[i as int]@);
        }
        if !has_string(&r, items[i].as_str()) {
            put(&mut r, items[i].clone());
        }
        i = i + 1;
    }
    assert(model.take(i as int) =~= model);
    r
}

/// `distinct` keeps every item and invents none.
pub proof fn lemma_distinct_same_items(items: Seq<Text>, x: Text)
    ensures
        distinct(items).contains(x) <==> items.contains(x),
    decreases items.len(),
{
    if items.len() > 0 {
        let before = distinct(items.drop_last());
        lemma_distinct_same_items(items.drop_last(), x);
        if items.contains(x) {
            let i = choose|i: int| 0 <= i < items.len() && items[i] == x;
            if i < items.len() - 1 {
                assert(items.drop_last()[i] == x);
                let j = choose|j: int| 0 <= j < before.len() && before[j] == x;
                assert(distinct(items)[j] == x);
            } else if !before.contains(x) {
                assert(distinct(items)[before.len() as int] == x);
            }
        }
        if distinct(items).contains(x) {
            let j = choose|j: int| 0 <= j < distinct(items).len() && distinct(items)[j] == x;
            if j < before.len() {
                assert(before[j] == x);
                let i = choose|i: int| 0 <= i < items.len() - 1 && items.drop_last()[i] == x;
                assert(items[i] == x);
            } else {
                assert(items[items.len() - 1] == x);
            }
        }
    }
}

/// `distinct` leaves no item twice.
pub proof fn lemma_distinct_no_repetition(items: Seq<Text>)
    ensures
        distinct(items).no_duplicates(),
    decreases items.len(),
{
    if items.len() > 0 {
        lemma_distinct_no_repetition(items.drop_last());
    }
}

/// What `distinct` makes of a prefix is a prefix of what it makes of the whole.
pub proof fn lemma_distinct_prefix(items: Seq<Text>, n: int)
    requires
        0 <= n <= items.len(),
    ensures
        distinct(items.take(n)).is_prefix_of(distinct(items)),
    decreases items.len() - n,
{
    if n == items.len() {
        assert(items.take(n) =~= items);
    } else {
        lemma_distinct_prefix(items, n + 1);
        assert(items.take(n + 1).drop_last() =~= items.take(n));
        let a = distinct(items.take(n));
        let b = distinct(items.take(n + 1));
        assert(a.is_prefix_of(b));
        assert(a =~= distinct(items).take(a.len() as int));
    }
}

/// The position of the first `x` in `items`, or the number of items.
pub open spec fn first_place(items: Seq<Text>, x: Text) -> int
    decreases items.len(),
{
    if items.len() == 0 || items[0] == x {
        0
    } else {
        1 + first_place(items.skip(1), x)
    }
}

proof fn lemma_first_place(items: Seq<Text>, x: Text, n: int)
    requires
        0 <= n <= items.len(),
        forall|i: int| 0 <= i < n ==> items[i] != x,
        n < items.len() ==> items[n] == x,
    ensures
        first_place(items, x) == n,
    decreases n,
{
    if n > 0 {
        lemma_first_place(items.skip(1), x, n - 1);
    }
}

pub proof fn lemma_first_place_parts(items: Seq<Text>, x: Text)
    ensures
        0 <= first_place(items, x) <= items.len(),
        forall|i: int| 0 <= i < first_place(items, x) ==> items[i] != x,
        first_place(items, x) < items.len() ==> items[first_place(items, x)] == x,
        items.contains(x) ==> first_place(items, x) < items.len(),
    decreases items.len(),
{
    if items.len() > 0 && items[0] != x {
        lemma_first_place_parts(items.skip(1), x);
        assert forall|i: int| 0 <= i < first_place(items, x) implies items[i] != x by {
            if i > 0 {
                assert(items[i] == items.skip(1)[i - 1]);
            }
        }
    }
}

proof fn lemma_first_place_before_last(items: Seq<Text>, x: Text)
    requires
        items.len() > 0,
        items.drop_last().contains(x),
    ensures
        first_place(items, x) == first_place(items.drop_last(), x),
        first_place(items, x) < items.len() - 1,
{
    let before = items.drop_last();
    let n = first_place(before, x);
    lemma_first_place_parts(before, x);
    assert forall|i: int| 0 <= i < n implies items[i] != x by {
        assert(before[i] == items[i]);
    }
    lemma_first_place(items, x, n);
}

/// `distinct` keeps the items in the order of their first places.
pub proof fn lemma_distinct_order(items: Seq<Text>, i: int, j: int)
    requires
        0 <= i < j < distinct(items).len(),
    ensures
        first_place(items, distinct(items)[i]) < first_place(items, distinct(items)[j])
            < items.len(),
    decreases items.len(),
{
    let before = items.drop_last();
    let x = distinct(items)[i];
    let y = distinct(items)[j];
    assert(distinct(before)[i] == x);
    lemma_distinct_same_items(before, x);
    lemma_first_place_before_last(items, x);
    lemma_distinct_same_items(before, y);
    if j < distinct(before).len() {
        assert(distinct(before)[j] == y);
        lemma_distinct_order(before, i, j);
        lemma_first_place_before_last(items, y);
    } else {
        assert forall|k: int| 0 <= k < items.len() - 1 implies items[k] != y by {
            assert(before[k] == items[k]);
        }
        lemma_first_place(items, y, items.len() - 1);
    }
}

} // verus!
