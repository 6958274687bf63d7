//! Trusted interface to the `smallvec` crate.
//!
//! A vertex's neighbour list is held in a `smallvec::SmallVec<[usize; 6]>`:
//! a growable vector that stores up to six elements inline, matching the
//! typical vertex degree of a subdivided icosphere. [`NeighbourList`]
//! carries it in a field hidden from the verifier; the functions here give
//! its operations contracts phrased over [`list_elems`], the sequence of
//! elements the list holds.

use vstd::prelude::*;

verus! {

/// A small-capacity-optimised list of vertex ids, opaque to the verifier.
#[verifier::external_body]
pub struct NeighbourList {
    list: smallvec::SmallVec<[usize; 6]>,
}

/// The elements a neighbour list holds, in order.
pub uninterp spec fn list_elems(v: NeighbourList) -> Seq<usize>;

/// Relies on `smallvec::SmallVec::new`: constructs an empty vector.
#[verifier::external_body]
pub(crate) fn list_new() -> (r: NeighbourList)
    ensures
        list_elems(r) == Seq::<usize>::empty(),
{
    NeighbourList { list: smallvec::SmallVec::new() }
}

/// Relies on `smallvec::SmallVec::push`: appends one element at the end.
#[verifier::external_body]
pub(crate) fn list_push(v: &mut NeighbourList, x: usize)
    ensures
        list_elems(*final(v)) == list_elems(*old(v)).push(x),
{
    v.list.push(x)
}

/// Relies on `smallvec::SmallVec::as_slice`: borrows the entire vector as a
/// slice, in order.
#[verifier::external_body]
pub(crate) fn list_as_slice(v: &NeighbourList) -> (r: &[usize])
    ensures
        r@ == list_elems(*v),
{
    v.list.as_slice()
}

} // verus!
