//! Values compared and copied by their views.
use vstd::prelude::*;

verus! {

/// The views of the elements of `items`, in order.
pub open spec fn views<T: View>(items: Seq<T>) -> Seq<T::V> {
    items.map_values(|item: T| item@)
}

/// The view of an optional value.
pub open spec fn option_view<T: View>(item: Option<T>) -> Option<T::V> {
    match item {
        Some(value) => Some(value@),
        None => None,
    }
}

/// A value that can be copied and compared without losing anything its view shows.
pub trait Value: View + Sized {
    /// A copy with the same view.
    fn duplicate(&self) -> (copy: Self)
        ensures
            copy@ == self@,
    ;

    /// Whether both values have the same view.
    fn same(&self, other: &Self) -> (equal: bool)
        ensures
            equal == (self@ == other@),
    ;
}

/// Copies every element of `items`.
pub fn duplicate_all<T: Value>(items: &Vec<T>) -> (copy: Vec<T>)
    ensures
        views(copy@) == views(items@),
        copy@.len() == items@.len(),
{
    let mut copy: Vec<T> = Vec::with_capacity(items.len());
    let mut index: usize = 0;
    while index < items.len()
        invariant
            index <= items.len(),
            copy@.len() == index,
            forall|i: int| 0 <= i < index ==> (#[trigger] copy@[i])@ == items@[i]@,
        decreases items.len() - index,
    {
        copy.push(items[index].duplicate());
        index += 1;
    }
    assert(views(copy@) =~= views(items@));
    copy
}

/// Whether both lists show the same views in the same order.
pub fn same_all<T: Value>(left: &Vec<T>, right: &Vec<T>) -> (equal: bool)
    ensures
        equal == (views(left@) == views(right@)),
{
    if left.len() != right.len() {
        assert(views(left@).len() != views(right@).len());
        return false;
    }
    let mut index: usize = 0;
    while index < left.len()
        invariant
            index <= left.len(),
            left@.len() == right@.len(),
            forall|i: int| 0 <= i < index ==> (#[trigger] left@[i])@ == right@[i]@,
        decreases left.len() - index,
    {
        if !left[index].same(&right[index]) {
            assert(views(left@)[index as int] != views(right@)[index as int]);
            return false;
        }
        index += 1;
    }
    assert(views(left@) =~= views(right@));
    true
}

/// Copies an optional list.
pub fn duplicate_optional<T: Value>(items: &Option<Vec<T>>) -> (copy: Option<Vec<T>>)
    ensures
        optional_views(copy) == optional_views(*items),
{
    match items {
        Some(list) => Some(duplicate_all(list)),
        None => None,
    }
}

/// The views of an optional list.
pub open spec fn optional_views<T: View>(items: Option<Vec<T>>) -> Option<Seq<T::V>> {
    match items {
        Some(list) => Some(views(list@)),
        None => None,
    }
}

/// Whether both optional lists show the same views.
pub fn same_optional<T: Value>(left: &Option<Vec<T>>, right: &Option<Vec<T>>) -> (equal: bool)
    ensures
        equal == (optional_views(*left) == optional_views(*right)),
{
    match (left, right) {
        (Some(left), Some(right)) => same_all(left, right),
        (None, None) => true,
        _ => false,
    }
}

/// The elements of an optional list.
pub open spec fn option_list<T>(items: Option<Vec<T>>) -> Option<Seq<T>> {
    match items {
        Some(list) => Some(list@),
        None => None,
    }
}

/// Copies an optional list of plain values.
pub fn copy_option_list<T: Copy>(items: &Option<Vec<T>>) -> (copy: Option<Vec<T>>)
    ensures
        option_list(copy) == option_list(*items),
{
    match items {
        Some(list) => Some(copy_all(list)),
        None => None,
    }
}

/// What a list holds once an element is added at its end.
pub proof fn lemma_push_contains<A>(items: Seq<A>, added: A, wanted: A)
    ensures
        items.push(added).contains(wanted) <==> items.contains(wanted) || wanted == added,
{
    let more = items.push(added);
    if items.contains(wanted) {
        let i = choose|i: int| 0 <= i < items.len() && items[i] == wanted;
        assert(more[i] == wanted);
    }
    assert(more[items.len() as int] == added);
}

/// What filtering keeps of one more element.
pub proof fn lemma_filter_next<A>(items: Seq<A>, pred: spec_fn(A) -> bool, index: int)
    requires
        0 <= index < items.len(),
    ensures
        items.take(index + 1).filter(pred) == (if pred(items[index]) {
            items.take(index).filter(pred).push(items[index])
        } else {
            items.take(index).filter(pred)
        }),
{
    reveal(Seq::filter);
    assert(items.take(index + 1).drop_last() =~= items.take(index));
}

/// Copies a list of plain values.
pub fn copy_all<T: Copy>(items: &Vec<T>) -> (copy: Vec<T>)
    ensures
        copy@ == items@,
{
    let mut copy: Vec<T> = Vec::with_capacity(items.len());
    let mut index: usize = 0;
    while index < items.len()
        invariant
            index <= items.len(),
            copy@ == items@.take(index as int),
        decreases items.len() - index,
    {
        copy.push(items[index]);
        assert(items@.take(index + 1) =~= items@.take(index as int).push(items@[index as int]));
        index += 1;
    }
    assert(items@.take(index as int) =~= items@);
    copy
}

} // verus!
