//! Handles: references to the objects of a shape.

use core::marker::PhantomData;
use vstd::prelude::*;

verus! {

/// A reference to an object of kind `T` that a shape holds.
///
/// A handle names the shape that issued it and the place of the object among
/// that shape's objects of its kind. Two handles are equal when they refer to
/// the same object of the same shape. A shape checks every handle that it is
/// given.
#[derive(Debug)]
pub struct Handle<T> {
    /// The identity of the shape that issued the handle.
    pub shape: u64,
    /// The place of the object among the shape's objects of this kind.
    pub index: usize,
    /// The kind of object.
    pub kind: PhantomData<T>,
}

impl<T> Clone for Handle<T> {
    fn clone(&self) -> (r: Self)
        ensures
            r == *self,
    {
        Handle { shape: self.shape, index: self.index, kind: PhantomData }
    }
}

impl<T> Copy for Handle<T> {

}

impl<T> PartialEq for Handle<T> {
    fn eq(&self, other: &Self) -> (r: bool) {
        self.shape == other.shape && self.index == other.index
    }
}

impl<T> Eq for Handle<T> {

}

impl<T> vstd::std_specs::cmp::PartialEqSpecImpl for Handle<T> {
    open spec fn obeys_eq_spec() -> bool {
        true
    }

    open spec fn eq_spec(&self, other: &Self) -> bool {
        self.shape == other.shape && self.index == other.index
    }
}

/// The handle to the object at a place in a shape.
pub open spec fn handle_at<T>(shape: u64, index: int) -> Handle<T> {
    Handle { shape, index: index as usize, kind: PhantomData }
}

impl<T> Handle<T> {
    /// Whether the handle was issued by the shape of that identity, which
    /// holds `count` objects of this kind.
    pub open spec fn issued_by(&self, shape: u64, count: nat) -> bool {
        self.shape == shape && self.index < count
    }

    /// The handle to the object at a place in a shape.
    pub(crate) fn new(shape: u64, index: usize) -> (r: Self)
        ensures
            r == handle_at::<T>(shape, index as int),
    {
        Handle { shape, index, kind: PhantomData }
    }

    /// Whether the two handles refer to the same object of the same shape.
    pub fn same_as(&self, other: &Self) -> (r: bool)
        ensures
            r == (*self == *other),
    {
        self.shape == other.shape && self.index == other.index
    }
}

/// The handles to the first `count` objects of a shape, in order.
pub(crate) fn handles<T>(shape: u64, count: usize) -> (r: Vec<Handle<T>>)
    ensures
        r@ == Seq::new(count as nat, |i: int| handle_at::<T>(shape, i)),
{
    let mut r: Vec<Handle<T>> = Vec::new();
    let mut i: usize = 0;
    while i < count
        invariant
            0 <= i <= count,
            r@ == Seq::new(i as nat, |j: int| handle_at::<T>(shape, j)),
        decreases count - i,
    {
        r.push(Handle::new(shape, i));
        assert(r@ =~= Seq::new((i + 1) as nat, |j: int| handle_at::<T>(shape, j)));
        i += 1;
    }
    r
}

} // verus!
