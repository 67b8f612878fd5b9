//! Vectors by the views of their items.

use vstd::prelude::*;

verus! {

/// `Vec::push`, stated on the views of the items.
pub fn push<T: DeepView>(items: &mut Vec<T>, item: T)
    ensures
        final(items).deep_view() == old(items).deep_view().push(item.deep_view()),
        final(items)@ == old(items)@.push(item),
{
    let ghost before = items.deep_view();
    items.push(item);
    assert(items.deep_view() =~= before.push(item.deep_view()));
}

/// `Vec::append`, stated on the views of the items.
pub fn append<T: DeepView>(items: &mut Vec<T>, more: Vec<T>)
    ensures
        final(items).deep_view() == old(items).deep_view() + more.deep_view(),
{
    let ghost before = items.deep_view();
    let ghost added = more.deep_view();
    let mut more = more;
    items.append(&mut more);
    assert(items.deep_view() =~= before + added);
}

/// The empty vector has no items.
pub fn none<T: DeepView>() -> (r: Vec<T>)
    ensures
        r.deep_view() == Seq::<T::V>::empty(),
{
    let r: Vec<T> = Vec::new();
    assert(r.deep_view() =~= Seq::<T::V>::empty());
    r
}

/// A vector of one item.
pub fn one<T: DeepView>(item: T) -> (r: Vec<T>)
    ensures
        r.deep_view() == seq![item.deep_view()],
{
    let mut r: Vec<T> = Vec::new();
    r.push(item);
    assert(r.deep_view() =~= seq![item.deep_view()]);
    r
}

} // verus!
