//! The backend-agnostic data array.
//!
//! Blocks own their numeric data through a small capability set — shape
//! query, reshape, axis swap, clone, and a stable origin identity — and never
//! read or write elements. This module models exactly that capability set:
//! a `DataArray` carries the origin token of the backend that created it and
//! the current shape; the elements themselves stay behind the backend
//! boundary, out of reach of the block logic.

use vstd::prelude::*;

use crate::error::Error;

verus! {

/// What a `DataArray` is, mathematically: its backend identity and its shape.
#[verifier::ext_equal]
pub struct ArrayView {
    pub origin: usize,
    pub shape: Seq<usize>,
}

/// The number of elements a dense array of this shape holds: the product of
/// the axis lengths (one, for the empty shape).
pub open spec fn element_count(shape: Seq<usize>) -> int
    decreases shape.len(),
{
    if shape.len() == 0 {
        1
    } else {
        element_count(shape.drop_last()) * (shape.last() as int)
    }
}

/// A shape of one axis holds as many elements as that axis is long.
pub proof fn lemma_element_count_singleton(len: usize)
    ensures
        element_count(seq![len]) == len as int,
{
    assert(seq![len].drop_last() =~= Seq::<usize>::empty());
    assert(element_count(Seq::<usize>::empty()) == 1);
}

/// Splitting a shape splits its element count into a product.
pub proof fn lemma_element_count_concat(x: Seq<usize>, y: Seq<usize>)
    ensures
        element_count(x + y) == element_count(x) * element_count(y),
    decreases y.len(),
{
    if y.len() == 0 {
        assert(x + y =~= x);
    } else {
        assert((x + y).drop_last() =~= x + y.drop_last());
        assert((x + y).last() == y.last());
        lemma_element_count_concat(x, y.drop_last());
        assert(element_count(x) * element_count(y.drop_last()) * (y.last() as int)
            == element_count(x) * (element_count(y.drop_last()) * (y.last() as int)))
            by (nonlinear_arith);
    }
}

/// Swapping two axes leaves the element count unchanged.
pub proof fn lemma_element_count_swap(shape: Seq<usize>, i: int, j: int)
    requires
        0 <= i <= j < shape.len(),
    ensures
        element_count(shape.update(i, shape[j]).update(j, shape[i])) == element_count(shape),
{
    if i == j {
        assert(shape.update(i, shape[j]).update(j, shape[i]) =~= shape);
    } else {
        let front = shape.subrange(0, i);
        let mid = shape.subrange(i + 1, j);
        let back = shape.subrange(j + 1, shape.len() as int);
        let a = shape[i];
        let b = shape[j];
        let swapped = shape.update(i, b).update(j, a);
        assert(shape =~= front + seq![a] + mid + seq![b] + back);
        assert(swapped =~= front + seq![b] + mid + seq![a] + back);
        lemma_element_count_singleton(a);
        lemma_element_count_singleton(b);
        lemma_element_count_concat(front, seq![a]);
        lemma_element_count_concat(front + seq![a], mid);
        lemma_element_count_concat(front + seq![a] + mid, seq![b]);
        lemma_element_count_concat(front + seq![a] + mid + seq![b], back);
        lemma_element_count_concat(front, seq![b]);
        lemma_element_count_concat(front + seq![b], mid);
        lemma_element_count_concat(front + seq![b] + mid, seq![a]);
        lemma_element_count_concat(front + seq![b] + mid + seq![a], back);
        let f = element_count(front);
        let m = element_count(mid);
        let k = element_count(back);
        assert(f * (b as int) * m * (a as int) * k == f * (a as int) * m * (b as int) * k)
            by (nonlinear_arith);
    }
}

/// An owned N-dimensional array, reachable only through shape and layout
/// operations. The `origin` token identifies the backend that created the
/// array; equality of origins is the only compatibility test blocks perform.
#[derive(Debug)]
pub struct DataArray {
    origin: usize,
    shape: Vec<usize>,
}

impl View for DataArray {
    type V = ArrayView;

    closed spec fn view(&self) -> ArrayView {
        ArrayView { origin: self.origin, shape: self.shape@ }
    }
}

impl DataArray {
    /// A new array with the given backend origin token and shape.
    pub fn new(origin: usize, shape: Vec<usize>) -> (r: DataArray)
        ensures
            r@.origin == origin,
            r@.shape == shape@,
    {
        DataArray { origin, shape }
    }

    /// The origin token of the backend that created this array.
    pub fn origin(&self) -> (r: usize)
        ensures
            r == self@.origin,
    {
        self.origin
    }

    /// The current shape, one length per axis.
    pub fn shape(&self) -> (r: &Vec<usize>)
        ensures
            r@ == self@.shape,
    {
        &self.shape
    }

    /// Change the shape of the array. A dense backend refuses a shape that
    /// changes the element count, so callers must keep it: block logic only
    /// ever requests shapes it computed from the labels it validated, and
    /// proves the count preserved.
    pub fn reshape(&mut self, new_shape: Vec<usize>) -> (r: Result<(), Error>)
        requires
            element_count(new_shape@) == element_count(old(self)@.shape),
        ensures
            r.is_ok(),
            final(self)@.origin == old(self)@.origin,
            final(self)@.shape == new_shape@,
    {
        self.shape = new_shape;
        Ok(())
    }

    /// Swap two axes of the array; fails if either axis is out of bounds.
    pub fn swap_axes(&mut self, first: usize, second: usize) -> (r: Result<(), Error>)
        ensures
            final(self)@.origin == old(self)@.origin,
            r.is_ok() <==> (first < old(self)@.shape.len() && second < old(self)@.shape.len()),
            r.is_ok() ==> final(self)@.shape == old(self)@.shape.update(
                first as int,
                old(self)@.shape[second as int],
            ).update(second as int, old(self)@.shape[first as int]),
            r.is_err() ==> *final(self) == *old(self) && (r matches Err(
                Error::AxisOutOfBounds { axis, rank },
            ) && rank == old(self)@.shape.len() && (axis == first || axis == second) && axis
                >= rank),
    {
        let rank = self.shape.len();
        if first >= rank {
            return Err(Error::AxisOutOfBounds { axis: first, rank });
        }
        if second >= rank {
            return Err(Error::AxisOutOfBounds { axis: second, rank });
        }
        let a = self.shape[first];
        let b = self.shape[second];
        self.shape.set(first, b);
        self.shape.set(second, a);
        proof {
            assert(self@.shape =~= old(self)@.shape.update(
                first as int,
                old(self)@.shape[second as int],
            ).update(second as int, old(self)@.shape[first as int]));
        }
        Ok(())
    }

    /// Copy this array. Cloning in this model backend always succeeds; the
    /// result is an independent array with the same origin and shape.
    pub fn try_clone(&self) -> (r: Result<DataArray, Error>)
        ensures
            r matches Ok(a) && a@ == self@,
    {
        let mut shape: Vec<usize> = Vec::new();
        let mut i: usize = 0;
        while i < self.shape.len()
            invariant
                i <= self.shape@.len(),
                shape@ == self.shape@.take(i as int),
            decreases self.shape@.len() - i,
        {
            shape.push(self.shape[i]);
            proof {
                assert(shape@ =~= self.shape@.take(i + 1));
            }
            i = i + 1;
        }
        proof {
            assert(self.shape@.take(self.shape@.len() as int) =~= self.shape@);
        }
        let r = DataArray { origin: self.origin, shape };
        proof {
            assert(r@ =~= self@);
        }
        Ok(r)
    }
}

} // verus!
