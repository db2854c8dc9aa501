//! The lattice points of a rectangle, one at a time and from either end.

use core::marker::PhantomData;
use vstd::arithmetic::div_mod::lemma_fundamental_div_mod;
use vstd::prelude::*;

use crate::coordinate::Coordinate;
use crate::geometry::{point2, Point2D, Rect};
use crate::region::Region;

verus! {

/// The lattice points of a rectangle in row-major order, handed out one at a
/// time from either end.
///
/// The view is the sequence of points not handed out yet. Nothing is stored
/// but two cursors, so a rectangle of any size costs the same.
#[derive(Debug)]
pub struct LatticePoints<T, U> {
    left: T,
    right: T,
    front_x: T,
    front_y: T,
    back_x: T,
    back_y: T,
    _unit: PhantomData<U>,
}

impl<T: Copy, U> Copy for LatticePoints<T, U> {}

impl<T: Copy, U> Clone for LatticePoints<T, U> {
    fn clone(&self) -> (copy: Self)
        ensures
            copy == *self,
    {
        *self
    }
}

/// The point that stands `k` places after the column `skipped` of the row `y`
/// in rows of width `w` that begin at `left`.
spec fn point_after(left: int, w: int, skipped: int, y: int, k: int) -> (int, int) {
    (left + (skipped + k) % w, y + (skipped + k) / w)
}

/// Stepping to the next row: the place `k` counted from the start of a row is
/// the place `w + k` counted from the start of the row above.
proof fn lemma_next_row(left: int, w: int, y: int, k: int)
    requires
        0 < w,
    ensures
        point_after(left, w, 0, y + 1, k) == point_after(left, w, w - 1, y, k + 1),
{
    let q = k / w;
    let r = k % w;
    lemma_fundamental_div_mod(k, w);
    vstd::arithmetic::div_mod::lemma_mod_bound(k, w);
    assert(w + k == (q + 1) * w + r) by (nonlinear_arith)
        requires
            k == w * q + r,
    ;
    Region::lemma_row_and_column(w, q + 1, r);
}

/// The place `rows * w + column`, counted from the start of the row `y`, is
/// the point in the column `column` of the row `y + rows`.
proof fn lemma_point_at(left: int, w: int, y: int, rows: int, column: int)
    requires
        0 <= column < w,
    ensures
        point_after(left, w, 0, y, rows * w + column) == (left + column, y + rows),
{
    Region::lemma_row_and_column(w, rows, column);
}

impl<T: Coordinate, U> LatticePoints<T, U> {
    spec fn width(&self) -> int {
        self.right.value() - self.left.value()
    }

    spec fn exhausted(&self) -> bool {
        &&& self.front_x.value() == self.back_x.value()
        &&& self.front_y.value() == self.back_y.value()
    }

    spec fn count(&self) -> int {
        (self.back_y.value() - self.front_y.value()) * self.width() + (self.back_x.value()
            - self.front_x.value())
    }

    /// The invariant: either nothing is left, or both cursors stand inside the
    /// rows and the front cursor stands before the back cursor.
    pub closed spec fn wf(&self) -> bool {
        ||| self.exhausted()
        ||| {
            &&& self.left.value() <= self.front_x.value() < self.right.value()
            &&& self.left.value() <= self.back_x.value() < self.right.value()
            &&& (self.front_y.value() < self.back_y.value() || (self.front_y.value()
                == self.back_y.value() && self.front_x.value() < self.back_x.value()))
        }
    }

    proof fn lemma_count_positive(&self)
        requires
            self.wf(),
            !self.exhausted(),
        ensures
            self.count() >= 1,
    {
        let rows = self.back_y.value() - self.front_y.value();
        let w = self.width();
        assert(rows * w >= w || rows == 0) by (nonlinear_arith)
            requires
                rows >= 0,
                w > 0,
        ;
        assert(rows == 0 ==> rows * w == 0) by (nonlinear_arith);
    }

    /// The points that are left, in the order in which `next` hands them out.
    pub closed spec fn remaining(&self) -> Seq<(int, int)> {
        if self.exhausted() {
            Seq::empty()
        } else {
            Seq::new(
                self.count() as nat,
                |k: int|
                    point_after(
                        self.left.value(),
                        self.width(),
                        self.front_x.value() - self.left.value(),
                        self.front_y.value(),
                        k,
                    ),
            )
        }
    }

    /// The cursor over all lattice points of `r`.
    pub fn new(r: Rect<T, U>) -> (points: Self)
        requires
            r.fits(),
        ensures
            points.wf(),
            points@ == r@.lattice(),
    {
        let left = r.min_x();
        let right = r.max_x();
        let top = r.min_y();
        let bottom = r.max_y();
        if left.is_below(right) && top.is_below(bottom) {
            let points = LatticePoints {
                left,
                right,
                front_x: left,
                front_y: top,
                back_x: left,
                back_y: bottom,
                _unit: PhantomData,
            };
            proof {
                assert(r@.width * r@.height == points.count()) by (nonlinear_arith)
                    requires
                        points.count() == r@.height * r@.width + 0,
                ;
                assert(points@ =~= r@.lattice());
            }
            points
        } else {
            LatticePoints {
                left,
                right,
                front_x: left,
                front_y: top,
                back_x: left,
                back_y: top,
                _unit: PhantomData,
            }
        }
    }

    /// Hands out the first point that is left, or `None` where none is.
    pub fn next(&mut self) -> (p: Option<Point2D<T, U>>)
        requires
            old(self).wf(),
        ensures
            final(self).wf(),
            match p {
                Some(q) => {
                    &&& old(self)@.len() > 0
                    &&& q@ == old(self)@.first()
                    &&& final(self)@ == old(self)@.drop_first()
                },
                None => old(self)@.len() == 0 && final(self)@ == old(self)@,
            },
    {
        if self.front_x.is_same(self.back_x) && self.front_y.is_same(self.back_y) {
            return None;
        }
        let ghost before = *self;
        proof {
            self.lemma_count_positive();
            self.right.lemma_value_in_range();
            self.back_y.lemma_value_in_range();
            lemma_point_at(
                self.left.value(),
                self.width(),
                self.front_y.value(),
                0,
                self.front_x.value() - self.left.value(),
            );
        }
        let p = point2(self.front_x, self.front_y);
        let after = self.front_x.successor();
        if after.is_same(self.right) {
            self.front_x = self.left;
            self.front_y = self.front_y.successor();
        } else {
            self.front_x = after;
        }
        proof {
            let w = before.width();
            let rows = before.back_y.value() - before.front_y.value();
            assert((rows - 1) * w == rows * w - w) by (nonlinear_arith);
            assert(self.count() == before.count() - 1);
            if !self.exhausted() {
                assert forall|k: int| 0 <= k < self.count() implies self@[k] == before@[k + 1] by {
                    if after.value() == before.right.value() {
                        lemma_next_row(before.left.value(), w, before.front_y.value(), k);
                    }
                }
            }
            assert(self@ =~= before@.drop_first());
        }
        Some(p)
    }

    /// Hands out the last point that is left, or `None` where none is.
    pub fn next_back(&mut self) -> (p: Option<Point2D<T, U>>)
        requires
            old(self).wf(),
        ensures
            final(self).wf(),
            match p {
                Some(q) => {
                    &&& old(self)@.len() > 0
                    &&& q@ == old(self)@.last()
                    &&& final(self)@ == old(self)@.drop_last()
                },
                None => old(self)@.len() == 0 && final(self)@ == old(self)@,
            },
    {
        if self.front_x.is_same(self.back_x) && self.front_y.is_same(self.back_y) {
            return None;
        }
        let ghost before = *self;
        proof {
            self.lemma_count_positive();
            self.left.lemma_value_in_range();
            self.front_y.lemma_value_in_range();
        }
        if self.back_x.is_same(self.left) {
            self.back_x = self.right.predecessor();
            self.back_y = self.back_y.predecessor();
        } else {
            self.back_x = self.back_x.predecessor();
        }
        proof {
            let w = before.width();
            let left = before.left.value();
            let skipped = before.front_x.value() - left;
            let rows = self.back_y.value() - before.front_y.value();
            let full_rows = before.back_y.value() - before.front_y.value();
            assert((full_rows - 1) * w == full_rows * w - w) by (nonlinear_arith);
            assert(self.count() == before.count() - 1);
            assert(skipped + self.count() == rows * w + (self.back_x.value() - left));
            lemma_point_at(left, w, before.front_y.value(), rows, self.back_x.value() - left);
            assert(before@.last() == point_after(
                left,
                w,
                skipped,
                before.front_y.value(),
                before.count() - 1,
            ));
            if self.exhausted() {
                assert(rows * w == 0) by (nonlinear_arith)
                    requires
                        rows == 0,
                ;
            }
            assert(self@.len() == before@.len() - 1);
            assert(self@ =~= before@.drop_last());
        }
        Some(point2(self.back_x, self.back_y))
    }
}

impl<T: Coordinate, U> View for LatticePoints<T, U> {
    type V = Seq<(int, int)>;

    /// The points that are left, in the order in which `next` hands them out.
    open spec fn view(&self) -> Seq<(int, int)> {
        self.remaining()
    }
}

/// The order in which a cursor that is only asked from the front hands out
/// the points `points` that are left to it.
pub open spec fn from_front(points: Seq<(int, int)>) -> Seq<(int, int)>
    decreases points.len(),
{
    if points.len() == 0 {
        Seq::empty()
    } else {
        seq![points.first()] + from_front(points.drop_first())
    }
}

/// The order in which a cursor that is only asked from the back hands out the
/// points `points` that are left to it.
pub open spec fn from_back(points: Seq<(int, int)>) -> Seq<(int, int)>
    decreases points.len(),
{
    if points.len() == 0 {
        Seq::empty()
    } else {
        seq![points.last()] + from_back(points.drop_last())
    }
}

/// Asked from the front, a cursor hands out its points in their order; asked
/// from the back, it hands them out in the exact mirror of that order.
pub proof fn lemma_back_mirrors_front(points: Seq<(int, int)>)
    ensures
        from_front(points) == points,
        from_back(points) == points.reverse(),
        from_back(points) == from_front(points).reverse(),
    decreases points.len(),
{
    if points.len() > 0 {
        lemma_back_mirrors_front(points.drop_first());
        lemma_back_mirrors_front(points.drop_last());
        assert(seq![points.first()] + points.drop_first() =~= points);
        assert(seq![points.last()] + points.drop_last().reverse() =~= points.reverse());
    } else {
        assert(points.reverse() =~= Seq::<(int, int)>::empty());
        assert(points =~= Seq::<(int, int)>::empty());
    }
}

/// The integer types over which the lattice points of a rectangle can be
/// enumerated.
pub trait PointsIn<X>: Coordinate {
    /// The lattice points of `r`: every `(x, y)` with `x` from the left edge
    /// up to the right edge and `y` from the top edge up to the bottom edge,
    /// both edges on the far side left out, the rows from the top down and each
    /// row from the left to the right. A rectangle whose width or height is
    /// zero has none.
    fn points_in(r: Rect<Self, X>) -> (points: LatticePoints<Self, X>)
        requires
            r.fits(),
        ensures
            points.wf(),
            points@ == r@.lattice(),
    {
        LatticePoints::new(r)
    }
}

impl<X> PointsIn<X> for u8 {}

impl<X> PointsIn<X> for u16 {}

impl<X> PointsIn<X> for u32 {}

impl<X> PointsIn<X> for u64 {}

impl<X> PointsIn<X> for usize {}

impl<X> PointsIn<X> for i8 {}

impl<X> PointsIn<X> for i16 {}

impl<X> PointsIn<X> for i32 {}

impl<X> PointsIn<X> for i64 {}

impl<X> PointsIn<X> for isize {}

} // verus!
