//! The view of a list: the views of its items, in order.

use vstd::prelude::*;

verus! {

pub open spec fn views<T: View>(items: Seq<T>) -> Seq<T::V> {
    items.map_values(|item: T| item@)
}

pub proof fn lemma_views_push<T: View>(items: Seq<T>, item: T)
    ensures
        views(items.push(item)) == views(items).push(item@),
{
    assert(views(items.push(item)) =~= views(items).push(item@));
}

pub proof fn lemma_views_remove_first<T: View>(items: Seq<T>)
    requires
        items.len() > 0,
    ensures
        views(items.remove(0)) == views(items).drop_first(),
        views(items)[0] == items[0]@,
{
    assert(views(items.remove(0)) =~= views(items).drop_first());
}

pub proof fn lemma_views_empty<T: View>(items: Seq<T>)
    ensures
        items.len() == 0 <==> views(items).len() == 0,
        items.len() == 0 ==> views(items) == Seq::<T::V>::empty(),
{
    if items.len() == 0 {
        assert(views(items) =~= Seq::<T::V>::empty());
    }
}

} // verus!
