//! Views of runs of values.

use vstd::prelude::*;

verus! {

/// The views of a run of values, in order.
pub open spec fn views_of<T: View>(values: Seq<T>) -> Seq<T::V> {
    Seq::new(values.len(), |i: int| values[i]@)
}

/// The views of two runs joined are the views of each, joined.
pub proof fn lemma_views_add<T: View>(front: Seq<T>, back: Seq<T>)
    ensures
        views_of(front + back) == views_of(front) + views_of(back),
{
}

/// The runs of a run, joined in order.
pub open spec fn concatenated<T>(parts: Seq<Seq<T>>) -> Seq<T>
    decreases parts.len(),
{
    if parts.len() == 0 {
        Seq::empty()
    } else {
        concatenated(parts.drop_last()) + parts.last()
    }
}

/// Joined runs are empty exactly when each of them is.
pub proof fn lemma_concatenated_empty<T>(parts: Seq<Seq<T>>)
    ensures
        concatenated(parts).len() == 0 <==> forall|i: int|
            0 <= i < parts.len() ==> (#[trigger] parts[i]).len() == 0,
    decreases parts.len(),
{
    if parts.len() > 0 {
        lemma_concatenated_empty(parts.drop_last());
        if concatenated(parts).len() == 0 {
            assert forall|i: int| 0 <= i < parts.len() implies (#[trigger] parts[i]).len() == 0 by {
                if i < parts.len() - 1 {
                    assert(parts.drop_last()[i] == parts[i]);
                }
            }
        }
    }
}

} // verus!
