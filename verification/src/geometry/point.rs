//! Points in the coordinates of a curve, a surface or the model.

use vstd::prelude::*;

use crate::math;

verus! {

/// A point in `D` native coordinates, together with the same point in the
/// three coordinates of model space.
///
/// The canonical form is the image of the native form under the curve or
/// surface that the native coordinates belong to, as it was when the point was
/// made. In three dimensions the two forms agree.
#[derive(Clone, Copy, Debug, PartialEq, Eq)]
pub struct Point<const D: usize> {
    /// The point in its own coordinates.
    pub native: math::Point<D>,
    /// The point in model coordinates.
    pub canonical: math::Point<3>,
}

impl<const D: usize> Point<D> {
    /// A point from its two forms.
    pub fn new(native: math::Point<D>, canonical: math::Point<3>) -> (r: Self)
        ensures
            r.native == native,
            r.canonical == canonical,
    {
        Point { native, canonical }
    }

    /// The point in its own coordinates.
    pub fn native(&self) -> (r: math::Point<D>)
        ensures
            r == self.native,
    {
        self.native
    }

    /// The point in model coordinates.
    pub fn canonical(&self) -> (r: math::Point<3>)
        ensures
            r == self.canonical,
    {
        self.canonical
    }

    /// Whether both forms are bounded.
    pub open spec fn bounded(&self) -> bool {
        self.native.bounded() && self.canonical.bounded()
    }

    /// Whether the two points hold the same numbers in both forms.
    pub open spec fn same(&self, other: &Self) -> bool {
        self.native.same(&other.native) && self.canonical.same(&other.canonical)
    }

    /// Whether both forms are bounded.
    pub fn is_bounded(&self) -> (r: bool)
        ensures
            r == self.bounded(),
    {
        self.native.is_bounded() && self.canonical.is_bounded()
    }

    /// Whether the two points hold the same numbers in both forms.
    pub fn same_as(&self, other: &Self) -> (r: bool)
        ensures
            r == self.same(other),
    {
        self.native.same_as(&other.native) && self.canonical.same_as(&other.canonical)
    }
}

impl Point<3> {
    /// A point of model space, whose two forms are the same.
    pub fn from_model(point: math::Point<3>) -> (r: Self)
        ensures
            r.native == point,
            r.canonical == point,
    {
        Point { native: point, canonical: point }
    }
}

} // verus!
