//! Facts about sequences that the passes over lists need.
use vstd::prelude::*;

verus! {

/// Filtering one element further keeps the element exactly when it passes.
pub proof fn lemma_filter_step<T>(list: Seq<T>, keep: spec_fn(T) -> bool, at: int)
    requires
        0 <= at < list.len(),
    ensures
        list.take(at + 1).filter(keep) == if keep(list[at]) {
            list.take(at).filter(keep).push(list[at])
        } else {
            list.take(at).filter(keep)
        },
{
    reveal(Seq::filter);
    assert(list.take(at + 1).drop_last() =~= list.take(at));
}

/// Filtering nothing leaves nothing.
pub proof fn lemma_filter_none<T>(list: Seq<T>, keep: spec_fn(T) -> bool)
    ensures
        list.take(0).filter(keep) == Seq::<T>::empty(),
{
    reveal(Seq::filter);
    assert(list.take(0).filter(keep) =~= Seq::<T>::empty());
}

/// Filtering everything that there is.
pub proof fn lemma_filter_all<T>(list: Seq<T>, keep: spec_fn(T) -> bool)
    ensures
        list.take(list.len() as int).filter(keep) == list.filter(keep),
{
    assert(list.take(list.len() as int) =~= list);
}

/// The place of the first item that is meant, and the length of the list where
/// there is none.
pub open spec fn first<T>(list: Seq<T>, meant: spec_fn(T) -> bool) -> int
    decreases list.len(),
{
    if list.len() == 0 {
        0
    } else if meant(list[0]) {
        0
    } else {
        1 + first(list.drop_first(), meant)
    }
}

/// The first item that is meant is the one before which none is.
pub proof fn lemma_first<T>(list: Seq<T>, meant: spec_fn(T) -> bool, at: int)
    requires
        0 <= at <= list.len(),
        at < list.len() ==> meant(list[at]),
        forall|i: int| 0 <= i < at ==> !meant(#[trigger] list[i]),
    ensures
        first(list, meant) == at,
    decreases list.len(),
{
    if at > 0 {
        let rest = list.drop_first();
        assert forall|i: int| 0 <= i < at - 1 implies !meant(#[trigger] rest[i]) by {
            assert(rest[i] == list[i + 1]);
        }
        assert(!meant(list[0]));
        lemma_first(rest, meant, at - 1);
    }
}

/// What holds of the place of the first item that is meant.
pub proof fn lemma_first_bounds<T>(list: Seq<T>, meant: spec_fn(T) -> bool)
    ensures
        0 <= first(list, meant) <= list.len(),
        first(list, meant) < list.len() ==> meant(list[first(list, meant)]),
        forall|i: int| 0 <= i < first(list, meant) ==> !meant(#[trigger] list[i]),
    decreases list.len(),
{
    if list.len() > 0 && !meant(list[0]) {
        let rest = list.drop_first();
        lemma_first_bounds(rest, meant);
        assert forall|i: int| 0 <= i < first(list, meant) implies !meant(#[trigger] list[i]) by {
            if i > 0 {
                assert(list[i] == rest[i - 1]);
            }
        }
    }
}

/// A list of things as a list of their values.
pub open spec fn views<T: View>(list: Seq<T>) -> Seq<T::V> {
    Seq::new(list.len(), |i: int| list[i]@)
}

/// An optional thing as an optional value.
pub open spec fn seen<T: View>(item: Option<T>) -> Option<T::V> {
    match item {
        Some(item) => Some(item@),
        None => None,
    }
}

/// The values of a list with one more thing at the end.
pub broadcast proof fn lemma_views_push<T: View>(list: Seq<T>, item: T)
    ensures
        #[trigger] views(list.push(item)) == views(list).push(item@),
{
    assert(views(list.push(item)) =~= views(list).push(item@));
}

/// The values of a list with one thing replaced.
pub broadcast proof fn lemma_views_update<T: View>(list: Seq<T>, at: int, item: T)
    requires
        0 <= at < list.len(),
    ensures
        #[trigger] views(list.update(at, item)) == views(list).update(at, item@),
{
    assert(views(list.update(at, item)) =~= views(list).update(at, item@));
}

/// The values of a list with one thing taken out.
pub broadcast proof fn lemma_views_remove<T: View>(list: Seq<T>, at: int)
    requires
        0 <= at < list.len(),
    ensures
        #[trigger] views(list.remove(at)) == views(list).remove(at),
{
    assert(views(list.remove(at)) =~= views(list).remove(at));
}

/// The values of a list with one thing put in.
pub broadcast proof fn lemma_views_insert<T: View>(list: Seq<T>, at: int, item: T)
    requires
        0 <= at <= list.len(),
    ensures
        #[trigger] views(list.insert(at, item)) == views(list).insert(at, item@),
{
    assert(views(list.insert(at, item)) =~= views(list).insert(at, item@));
}

/// The values of two lists put together.
pub broadcast proof fn lemma_views_add<T: View>(a: Seq<T>, b: Seq<T>)
    ensures
        #[trigger] views(a + b) == views(a) + views(b),
{
    assert(views(a + b) =~= views(a) + views(b));
}

/// The values of part of a list.
pub broadcast proof fn lemma_views_subrange<T: View>(list: Seq<T>, from: int, to: int)
    requires
        0 <= from <= to <= list.len(),
    ensures
        #[trigger] views(list.subrange(from, to)) == views(list).subrange(from, to),
{
    assert(views(list.subrange(from, to)) =~= views(list).subrange(from, to));
}

/// The values of nothing.
pub broadcast proof fn lemma_views_empty<T: View>(list: Seq<T>)
    requires
        list.len() == 0,
    ensures
        #[trigger] views(list) == Seq::<T::V>::empty(),
{
    assert(views(list) =~= Seq::<T::V>::empty());
}

/// How the values of a list follow its changes.
pub broadcast group group_views {
    lemma_views_push,
    lemma_views_update,
    lemma_views_remove,
    lemma_views_insert,
    lemma_views_add,
    lemma_views_subrange,
    lemma_views_empty,
}

} // verus!
