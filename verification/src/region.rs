//! Rectangles of the integer plane and what holds of them: containment,
//! intersection, bounding boxes, and the row-major order of their lattice
//! points.

use vstd::arithmetic::div_mod::{
    lemma_div_is_ordered, lemma_fundamental_div_mod, lemma_fundamental_div_mod_converse_div,
    lemma_fundamental_div_mod_converse_mod, lemma_mod_bound, lemma_multiply_divide_lt,
};
use vstd::prelude::*;

use crate::coordinate::Coordinate;

verus! {

/// An axis-aligned rectangle of the integer plane: the mathematical model of a
/// rectangle, free of any machine width.
///
/// The rectangle is half-open. It holds the lattice points `(px, py)` with
/// `x <= px < x + width` and `y <= py < y + height`, so one whose width or
/// height is zero or negative holds none.
pub struct Region {
    pub x: int,
    pub y: int,
    pub width: int,
    pub height: int,
}

/// The smaller of two integers.
pub open spec fn lesser(a: int, b: int) -> int {
    if a <= b {
        a
    } else {
        b
    }
}

/// The larger of two integers.
pub open spec fn greater(a: int, b: int) -> int {
    if a >= b {
        a
    } else {
        b
    }
}

impl Region {
    /// The right edge, which the rectangle excludes.
    pub open spec fn max_x(self) -> int {
        self.x + self.width
    }

    /// The bottom edge, which the rectangle excludes.
    pub open spec fn max_y(self) -> int {
        self.y + self.height
    }

    /// Whether the lattice point `p` lies inside.
    pub open spec fn contains(self, p: (int, int)) -> bool {
        &&& self.x <= p.0 < self.max_x()
        &&& self.y <= p.1 < self.max_y()
    }

    /// Whether no lattice point lies inside.
    pub open spec fn is_empty(self) -> bool {
        self.width <= 0 || self.height <= 0
    }

    /// The lattice points inside, as a set.
    pub open spec fn points(self) -> Set<(int, int)> {
        Set::new(|p: (int, int)| self.contains(p))
    }

    /// The rectangle of width and height one that holds `p` alone.
    pub open spec fn unit(p: (int, int)) -> Region {
        Region { x: p.0, y: p.1, width: 1, height: 1 }
    }

    /// The smallest rectangle that covers both `self` and the point `p`.
    pub open spec fn extend(self, p: (int, int)) -> Region {
        let x = lesser(self.x, p.0);
        let y = lesser(self.y, p.1);
        Region {
            x,
            y,
            width: greater(self.max_x(), p.0 + 1) - x,
            height: greater(self.max_y(), p.1 + 1) - y,
        }
    }

    /// The part that `self` and `other` have in common, or `None` where they
    /// share no lattice point.
    pub open spec fn intersection(self, other: Region) -> Option<Region> {
        let x = greater(self.x, other.x);
        let y = greater(self.y, other.y);
        let max_x = lesser(self.max_x(), other.max_x());
        let max_y = lesser(self.max_y(), other.max_y());
        if x < max_x && y < max_y {
            Some(Region { x, y, width: max_x - x, height: max_y - y })
        } else {
            None
        }
    }

    /// Whether the origin, the size and both excluded edges can be held in
    /// coordinates of type `T`.
    pub open spec fn representable<T: Coordinate>(self) -> bool {
        &&& T::lowest() <= self.x <= T::highest()
        &&& T::lowest() <= self.y <= T::highest()
        &&& T::lowest() <= self.width <= T::highest()
        &&& T::lowest() <= self.height <= T::highest()
        &&& T::lowest() <= self.max_x() <= T::highest()
        &&& T::lowest() <= self.max_y() <= T::highest()
    }

    /// Whether `self` is the bounding box of `points`: it covers each of them,
    /// and each of its four edges is touched by one of them.
    pub open spec fn bounds(self, points: Set<(int, int)>) -> bool {
        &&& forall|p: (int, int)| points.contains(p) ==> self.contains(p)
        &&& exists|p: (int, int)| points.contains(p) && p.0 == self.x
        &&& exists|p: (int, int)| points.contains(p) && p.0 == self.max_x() - 1
        &&& exists|p: (int, int)| points.contains(p) && p.1 == self.y
        &&& exists|p: (int, int)| points.contains(p) && p.1 == self.max_y() - 1
    }

    /// The lattice points inside in row-major order: the rows from the top
    /// down, each row from the left to the right.
    pub open spec fn lattice(self) -> Seq<(int, int)> {
        if self.is_empty() {
            Seq::empty()
        } else {
            Seq::new(
                (self.width * self.height) as nat,
                |k: int| (self.x + k % self.width, self.y + k / self.width),
            )
        }
    }

    /// The place that the point `p` has in row-major order.
    pub open spec fn index_of(self, p: (int, int)) -> int {
        (p.1 - self.y) * self.width + (p.0 - self.x)
    }

    /// A rectangle has a point in common with another exactly where their
    /// intersection is `Some`, and the intersection holds exactly the points
    /// that lie in both.
    pub proof fn lemma_intersection_points(self, other: Region, p: (int, int))
        ensures
            match self.intersection(other) {
                Some(common) => common.contains(p) <==> (self.contains(p) && other.contains(p)),
                None => !(self.contains(p) && other.contains(p)),
            },
    {
    }

    /// The unit rectangle of a point is the bounding box of that point alone.
    pub proof fn lemma_unit_bounds(p: (int, int))
        ensures
            Region::unit(p).bounds(set![p]),
            Region::unit(p).contains(p),
    {
        assert(set![p].contains(p));
    }

    /// Extending the bounding box of a set by a point gives the bounding box of
    /// the set with that point added.
    pub proof fn lemma_extend_bounds(self, points: Set<(int, int)>, p: (int, int))
        requires
            self.bounds(points),
        ensures
            self.extend(p).bounds(points.insert(p)),
            self.extend(p).contains(p),
    {
        let grown = self.extend(p);
        let more = points.insert(p);
        let left = choose|q: (int, int)| points.contains(q) && q.0 == self.x;
        let right = choose|q: (int, int)| points.contains(q) && q.0 == self.max_x() - 1;
        let top = choose|q: (int, int)| points.contains(q) && q.1 == self.y;
        let bottom = choose|q: (int, int)| points.contains(q) && q.1 == self.max_y() - 1;
        assert(more.contains(p));
        assert(more.contains(left) && more.contains(right));
        assert(more.contains(top) && more.contains(bottom));
        let new_left = if p.0 < self.x { p } else { left };
        let new_right = if p.0 + 1 > self.max_x() { p } else { right };
        let new_top = if p.1 < self.y { p } else { top };
        let new_bottom = if p.1 + 1 > self.max_y() { p } else { bottom };
        assert(more.contains(new_left) && new_left.0 == grown.x);
        assert(more.contains(new_right) && new_right.0 == grown.max_x() - 1);
        assert(more.contains(new_top) && new_top.1 == grown.y);
        assert(more.contains(new_bottom) && new_bottom.1 == grown.max_y() - 1);
    }

    /// A set of points has at most one bounding box.
    pub proof fn lemma_bounds_unique(self, other: Region, points: Set<(int, int)>)
        requires
            self.bounds(points),
            other.bounds(points),
        ensures
            self == other,
    {
        let a_left = choose|q: (int, int)| points.contains(q) && q.0 == self.x;
        let a_right = choose|q: (int, int)| points.contains(q) && q.0 == self.max_x() - 1;
        let a_top = choose|q: (int, int)| points.contains(q) && q.1 == self.y;
        let a_bottom = choose|q: (int, int)| points.contains(q) && q.1 == self.max_y() - 1;
        let b_left = choose|q: (int, int)| points.contains(q) && q.0 == other.x;
        let b_right = choose|q: (int, int)| points.contains(q) && q.0 == other.max_x() - 1;
        let b_top = choose|q: (int, int)| points.contains(q) && q.1 == other.y;
        let b_bottom = choose|q: (int, int)| points.contains(q) && q.1 == other.max_y() - 1;
        assert(other.contains(a_left) && other.contains(a_right));
        assert(other.contains(a_top) && other.contains(a_bottom));
        assert(self.contains(b_left) && self.contains(b_right));
        assert(self.contains(b_top) && self.contains(b_bottom));
    }

    /// The bounding box of a set is the least rectangle that covers it: every
    /// rectangle that covers the set covers the whole box.
    pub proof fn lemma_bounds_least(self, cover: Region, points: Set<(int, int)>, p: (int, int))
        requires
            self.bounds(points),
            forall|q: (int, int)| points.contains(q) ==> cover.contains(q),
            self.contains(p),
        ensures
            cover.contains(p),
    {
        let left = choose|q: (int, int)| points.contains(q) && q.0 == self.x;
        let right = choose|q: (int, int)| points.contains(q) && q.0 == self.max_x() - 1;
        let top = choose|q: (int, int)| points.contains(q) && q.1 == self.y;
        let bottom = choose|q: (int, int)| points.contains(q) && q.1 == self.max_y() - 1;
        assert(cover.contains(left) && cover.contains(right));
        assert(cover.contains(top) && cover.contains(bottom));
    }

    /// A row of width `w` holds the place `q * w + r` in its row `q` at its
    /// column `r`.
    pub proof fn lemma_row_and_column(w: int, q: int, r: int)
        requires
            0 <= r < w,
        ensures
            (q * w + r) / w == q,
            (q * w + r) % w == r,
    {
        lemma_fundamental_div_mod_converse_div(q * w + r, w, q, r);
        lemma_fundamental_div_mod_converse_mod(q * w + r, w, q, r);
    }

    /// A rectangle without negative sides has `width * height` lattice points.
    pub proof fn lemma_lattice_len(self)
        requires
            self.width >= 0,
            self.height >= 0,
        ensures
            self.lattice().len() == self.width * self.height,
    {
        assert(self.width * self.height >= 0) by (nonlinear_arith)
            requires
                self.width >= 0,
                self.height >= 0,
        ;
        if self.is_empty() {
            assert(self.width * self.height == 0) by (nonlinear_arith)
                requires
                    self.width == 0 || self.height == 0,
            ;
        }
    }

    /// The point at place `k` of the lattice lies inside the rectangle, and
    /// `index_of` gives its place back.
    pub proof fn lemma_lattice_point(self, k: int)
        requires
            0 <= k < self.lattice().len(),
        ensures
            self.contains(self.lattice()[k]),
            self.index_of(self.lattice()[k]) == k,
    {
        let w = self.width;
        assert(self.width * self.height >= 0) by (nonlinear_arith)
            requires
                self.width > 0,
                self.height > 0,
        ;
        lemma_mod_bound(k, w);
        lemma_fundamental_div_mod(k, w);
        lemma_multiply_divide_lt(k, w, self.height);
        assert(0 <= k / w) by (nonlinear_arith)
            requires
                k == w * (k / w) + (k % w),
                0 <= k,
                0 <= k % w < w,
        ;
        assert((k / w) * w == w * (k / w)) by (nonlinear_arith);
    }

    /// A point inside the rectangle stands in the lattice at its `index_of`.
    pub proof fn lemma_lattice_index(self, p: (int, int))
        requires
            self.contains(p),
        ensures
            0 <= self.index_of(p) < self.lattice().len(),
            self.lattice()[self.index_of(p)] == p,
    {
        let w = self.width;
        let q = p.1 - self.y;
        let r = p.0 - self.x;
        self.lemma_lattice_len();
        Self::lemma_row_and_column(w, q, r);
        assert(0 <= q * w + r < w * self.height) by (nonlinear_arith)
            requires
                0 <= q < self.height,
                0 <= r < w,
        ;
    }

    /// No point stands in the lattice twice.
    pub proof fn lemma_lattice_unique(self)
        ensures
            self.lattice().no_duplicates(),
    {
        assert forall|i: int, j: int|
            0 <= i < self.lattice().len() && 0 <= j < self.lattice().len() && i != j implies self.lattice()[i]
            != self.lattice()[j] by {
            self.lemma_lattice_point(i);
            self.lemma_lattice_point(j);
        }
    }

    /// The lattice holds exactly the points inside the rectangle.
    pub proof fn lemma_lattice_complete(self)
        ensures
            self.lattice().to_set() == self.points(),
    {
        assert forall|p: (int, int)| self.lattice().to_set().contains(p) == self.points().contains(
            p,
        ) by {
            if self.lattice().contains(p) {
                let k = choose|k: int| 0 <= k < self.lattice().len() && self.lattice()[k] == p;
                self.lemma_lattice_point(k);
            }
            if self.contains(p) {
                self.lemma_lattice_index(p);
            }
        }
        assert(self.lattice().to_set() =~= self.points());
    }

    /// The lattice is in row-major order: of two of its points the earlier one
    /// lies in a row above, or in the same row and further left.
    pub proof fn lemma_lattice_row_major(self, i: int, j: int)
        requires
            0 <= i < j < self.lattice().len(),
        ensures
            ({
                let a = self.lattice()[i];
                let b = self.lattice()[j];
                a.1 < b.1 || (a.1 == b.1 && a.0 < b.0)
            }),
    {
        let w = self.width;
        lemma_div_is_ordered(i, j, w);
        lemma_fundamental_div_mod(i, w);
        lemma_fundamental_div_mod(j, w);
    }
}

} // verus!
