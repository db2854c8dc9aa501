//! Points, sizes and rectangles with machine coordinates, tagged with the
//! space they belong to.

use core::marker::PhantomData;
use vstd::prelude::*;

use crate::coordinate::Coordinate;
use crate::region::Region;

verus! {

/// The space of coordinates that were given no space of their own.
#[derive(Clone, Copy, Debug, Default, PartialEq, Eq, Hash)]
pub struct UnknownUnit;

/// A lattice point with coordinates of type `T` in the space `U`.
///
/// `U` only keeps points of unrelated spaces apart at compile time; it holds
/// no data.
#[derive(Debug, PartialEq, Eq, Hash)]
pub struct Point2D<T, U> {
    pub x: T,
    pub y: T,
    pub _unit: PhantomData<U>,
}

/// A width and a height of type `T` in the space `U`.
#[derive(Debug, PartialEq, Eq, Hash)]
pub struct Size2D<T, U> {
    pub width: T,
    pub height: T,
    pub _unit: PhantomData<U>,
}

/// A rectangle given by its origin and its size.
#[derive(Debug, PartialEq, Eq, Hash)]
pub struct Rect<T, U> {
    pub origin: Point2D<T, U>,
    pub size: Size2D<T, U>,
}

impl<T: Copy, U> Copy for Point2D<T, U> {}

impl<T: Copy, U> Clone for Point2D<T, U> {
    fn clone(&self) -> (copy: Self)
        ensures
            copy == *self,
    {
        *self
    }
}

impl<T: Copy, U> Copy for Size2D<T, U> {}

impl<T: Copy, U> Clone for Size2D<T, U> {
    fn clone(&self) -> (copy: Self)
        ensures
            copy == *self,
    {
        *self
    }
}

impl<T: Copy, U> Copy for Rect<T, U> {}

impl<T: Copy, U> Clone for Rect<T, U> {
    fn clone(&self) -> (copy: Self)
        ensures
            copy == *self,
    {
        *self
    }
}

impl<T: Coordinate, U> View for Point2D<T, U> {
    type V = (int, int);

    /// The point as a pair of integers, `x` first.
    open spec fn view(&self) -> (int, int) {
        (self.x.value(), self.y.value())
    }
}

impl<T: Coordinate, U> View for Size2D<T, U> {
    type V = (int, int);

    /// The size as a pair of integers, the width first.
    open spec fn view(&self) -> (int, int) {
        (self.width.value(), self.height.value())
    }
}

impl<T: Coordinate, U> View for Rect<T, U> {
    type V = Region;

    open spec fn view(&self) -> Region {
        Region {
            x: self.origin.x.value(),
            y: self.origin.y.value(),
            width: self.size.width.value(),
            height: self.size.height.value(),
        }
    }
}

/// The point `(x, y)`.
pub fn point2<T, U>(x: T, y: T) -> (p: Point2D<T, U>)
    ensures
        p.x == x,
        p.y == y,
{
    Point2D { x, y, _unit: PhantomData }
}

/// The size of the given width and height.
pub fn size2<T, U>(width: T, height: T) -> (s: Size2D<T, U>)
    ensures
        s.width == width,
        s.height == height,
{
    Size2D { width, height, _unit: PhantomData }
}

/// The rectangle with origin `(x, y)` and the given width and height.
pub fn rect<T, U>(x: T, y: T, width: T, height: T) -> (r: Rect<T, U>)
    ensures
        r.origin.x == x,
        r.origin.y == y,
        r.size.width == width,
        r.size.height == height,
{
    Rect { origin: point2(x, y), size: size2(width, height) }
}

impl<T: Coordinate, U> Rect<T, U> {
    /// Whether the two excluded edges, `x + width` and `y + height`, can be
    /// held in `T`.
    pub open spec fn fits(&self) -> bool {
        &&& T::lowest() <= self@.max_x() <= T::highest()
        &&& T::lowest() <= self@.max_y() <= T::highest()
    }

    /// Two rectangles with the same view are the same rectangle: a contract
    /// that gives the view of a rectangle gives the rectangle.
    pub proof fn lemma_view_determines(self, other: Self)
        requires
            self@ == other@,
        ensures
            self == other,
    {
        self.origin.x.lemma_value_determines(other.origin.x);
        self.origin.y.lemma_value_determines(other.origin.y);
        self.size.width.lemma_value_determines(other.size.width);
        self.size.height.lemma_value_determines(other.size.height);
    }

    /// Whether the edges fit, tested without overflow.
    pub fn edges_fit(&self) -> (fit: bool)
        ensures
            fit == self.fits(),
    {
        match self.origin.x.checked_offset_by(self.size.width) {
            Some(right) => match self.origin.y.checked_offset_by(self.size.height) {
                Some(bottom) => {
                    proof {
                        right.lemma_value_in_range();
                        bottom.lemma_value_in_range();
                    }
                    true
                },
                None => false,
            },
            None => false,
        }
    }

    /// The left edge.
    pub fn min_x(&self) -> (edge: T)
        ensures
            edge.value() == self@.x,
    {
        self.origin.x
    }

    /// The right edge, which the rectangle excludes.
    pub fn max_x(&self) -> (edge: T)
        requires
            self.fits(),
        ensures
            edge.value() == self@.max_x(),
    {
        self.origin.x.offset_by(self.size.width)
    }

    /// The top edge.
    pub fn min_y(&self) -> (edge: T)
        ensures
            edge.value() == self@.y,
    {
        self.origin.y
    }

    /// The bottom edge, which the rectangle excludes.
    pub fn max_y(&self) -> (edge: T)
        requires
            self.fits(),
        ensures
            edge.value() == self@.max_y(),
    {
        self.origin.y.offset_by(self.size.height)
    }

    /// The width.
    pub fn width(&self) -> (extent: T)
        ensures
            extent.value() == self@.width,
    {
        self.size.width
    }

    /// The height.
    pub fn height(&self) -> (extent: T)
        ensures
            extent.value() == self@.height,
    {
        self.size.height
    }
}

impl<U> Rect<isize, U> {
    /// Whether the point `p` lies inside: on the left or top edge counts as
    /// inside, on the right or bottom edge as outside.
    ///
    /// The answer is that of `euclid::Rect::contains`. Not proved here: that it
    /// compares the point against the origin and against origin plus size, the
    /// lower bound inclusive and the upper one exclusive on both axes. The sum
    /// must not overflow, hence `fits`.
    #[verifier::external_body]
    pub(crate) fn contains(&self, p: Point2D<isize, U>) -> (inside: bool)
        requires
            self.fits(),
        ensures
            inside == self@.contains(p@),
    {
        let origin = euclid::Point2D::<isize, U>::new(self.origin.x, self.origin.y);
        let size = euclid::Size2D::<isize, U>::new(self.size.width, self.size.height);
        euclid::Rect::new(origin, size).contains(euclid::Point2D::new(p.x, p.y))
    }

    /// The part that `self` and `other` have in common, or `None` where they
    /// share no lattice point.
    ///
    /// The answer is that of `euclid::Rect::intersection`. Not proved here: that
    /// it takes the larger of the two origins and the smaller of the two far
    /// corners on each axis, and returns `None` unless the far corner so found
    /// lies strictly beyond the origin on both axes. The sums of origin and
    /// size must not overflow, hence `fits`.
    #[verifier::external_body]
    pub(crate) fn intersection(&self, other: &Rect<isize, U>) -> (common: Option<Rect<isize, U>>)
        requires
            self.fits(),
            other.fits(),
        ensures
            match common {
                Some(c) => self@.intersection(other@) == Some(c@),
                None => self@.intersection(other@) is None,
            },
    {
        let first = euclid::Rect::<isize, U>::new(
            euclid::Point2D::new(self.origin.x, self.origin.y),
            euclid::Size2D::new(self.size.width, self.size.height),
        );
        let second = euclid::Rect::<isize, U>::new(
            euclid::Point2D::new(other.origin.x, other.origin.y),
            euclid::Size2D::new(other.size.width, other.size.height),
        );
        match first.intersection(&second) {
            Some(c) => Some(rect(c.origin.x, c.origin.y, c.size.width, c.size.height)),
            None => None,
        }
    }
}

} // verus!
