//! The plain values that a sequence of records stands for.

use vstd::prelude::*;

verus! {

/// The views of the items of `v`, in their order.
pub open spec fn seq_view<T: View>(v: Seq<T>) -> Seq<T::V> {
    Seq::new(v.len(), |k: int| v[k]@)
}

/// Appending an item appends its view.
pub proof fn lemma_seq_view_push<T: View>(v: Seq<T>, x: T)
    ensures
        seq_view(v.push(x)) == seq_view(v).push(x@),
{
    assert(seq_view(v.push(x)) =~= seq_view(v).push(x@));
}

/// Nothing has no views.
pub proof fn lemma_seq_view_empty<T: View>()
    ensures
        seq_view(Seq::<T>::empty()) == Seq::<T::V>::empty(),
{
    assert(seq_view(Seq::<T>::empty()) =~= Seq::<T::V>::empty());
}

} // verus!
