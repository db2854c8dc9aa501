//! The bounding box of the points observed so far.

use core::marker::PhantomData;
use vstd::prelude::*;

use crate::geometry::{rect, Point2D, Rect, Size2D};
use crate::region::Region;

verus! {

/// The box after a point has been observed: the unit rectangle of the point
/// where nothing was observed before, else the least rectangle that covers the
/// earlier box and the point.
pub open spec fn grow(observed: Option<Region>, p: (int, int)) -> Region {
    match observed {
        None => Region::unit(p),
        Some(r) => r.extend(p),
    }
}

/// The box after the points of `points` have been observed in turn, starting
/// with nothing observed.
pub open spec fn observed(points: Seq<(int, int)>) -> Option<Region>
    decreases points.len(),
{
    if points.len() == 0 {
        None
    } else {
        Some(grow(observed(points.drop_last()), points.last()))
    }
}

/// The box only grows: after a point was observed it covers that point and
/// every point that it covered before.
pub proof fn lemma_grow_covers(observed: Option<Region>, p: (int, int), q: (int, int))
    ensures
        grow(observed, p).contains(p),
        observed matches Some(r) && r.contains(q) ==> grow(observed, p).contains(q),
{
}

/// In whatever order points are observed, and however often each, the box is
/// the bounding box of the set of those points: it covers each of them, and
/// each of its four edges is touched by one of them. Before the first point
/// there is no box.
pub proof fn lemma_observed_bounds(points: Seq<(int, int)>)
    ensures
        points.len() == 0 ==> observed(points) is None,
        points.len() > 0 ==> observed(points) is Some && observed(points).unwrap().bounds(
            points.to_set(),
        ),
    decreases points.len(),
{
    if points.len() > 0 {
        let earlier = points.drop_last();
        let p = points.last();
        lemma_observed_bounds(earlier);
        assert(points.to_set() =~= earlier.to_set().insert(p)) by {
            assert forall|q: (int, int)| points.to_set().contains(q) implies earlier.to_set().insert(
                p,
            ).contains(q) by {
                let k = choose|k: int| 0 <= k < points.len() && points[k] == q;
                if k < earlier.len() {
                    assert(earlier[k] == q);
                }
            }
            assert forall|q: (int, int)| earlier.to_set().insert(p).contains(
                q,
            ) implies points.to_set().contains(q) by {
                if q == p {
                    assert(points[points.len() - 1] == q);
                } else {
                    let k = choose|k: int| 0 <= k < earlier.len() && earlier[k] == q;
                    assert(points[k] == q);
                }
            }
        }
        match observed(earlier) {
            Some(r) => {
                r.lemma_extend_bounds(earlier.to_set(), p);
            },
            None => {
                Region::lemma_unit_bounds(p);
                assert(earlier.to_set() =~= Set::<(int, int)>::empty());
                assert(earlier.to_set().insert(p) =~= set![p]);
            },
        }
    }
}

/// The box depends only on which points were observed: two runs over the same
/// set of points end with the same box, whatever the order of the points and
/// however often each was observed.
pub proof fn lemma_observed_same_points(a: Seq<(int, int)>, b: Seq<(int, int)>)
    requires
        a.to_set() == b.to_set(),
    ensures
        observed(a) == observed(b),
{
    lemma_observed_bounds(a);
    lemma_observed_bounds(b);
    if a.len() > 0 {
        assert(a.to_set().contains(a[0]));
        assert(b.contains(a[0]));
        observed(a).unwrap().lemma_bounds_unique(observed(b).unwrap(), a.to_set());
    } else if b.len() > 0 {
        assert(b.to_set().contains(b[0]));
        assert(a.contains(b[0]));
    }
}

/// The box does not depend on the order of the observations: two runs of which
/// one is a rearrangement of the other end with the same box.
pub proof fn lemma_observed_any_order(a: Seq<(int, int)>, b: Seq<(int, int)>)
    requires
        a.to_multiset() == b.to_multiset(),
    ensures
        observed(a) == observed(b),
{
    a.to_multiset_ensures();
    b.to_multiset_ensures();
    assert forall|p: (int, int)| a.to_set().contains(p) == b.to_set().contains(p) by {
        assert(a.contains(p) <==> a.to_multiset().count(p) > 0);
        assert(b.contains(p) <==> b.to_multiset().count(p) > 0);
    }
    assert(a.to_set() =~= b.to_set());
    lemma_observed_same_points(a, b);
}

/// Tracks the least rectangle that covers every point observed so far.
#[derive(Debug, PartialEq, Eq, Hash)]
pub struct ExpandingBounds<Space> {
    observed_rect: Option<Rect<isize, Space>>,
}

impl<Space> Clone for ExpandingBounds<Space> {
    fn clone(&self) -> (copy: Self)
        ensures
            copy == *self,
    {
        ExpandingBounds { observed_rect: self.observed_rect }
    }
}

impl<Space> View for ExpandingBounds<Space> {
    type V = Option<Region>;

    /// The box of the points observed so far, `None` before the first.
    closed spec fn view(&self) -> Option<Region> {
        match self.observed_rect {
            Some(r) => Some(r@),
            None => None,
        }
    }
}

impl<Space> ExpandingBounds<Space> {
    /// The invariant: a box, once there is one, has a positive width and
    /// height, and its edges fit in `isize`.
    pub closed spec fn wf(&self) -> bool {
        match self.observed_rect {
            Some(r) => r.fits() && r@.width > 0 && r@.height > 0,
            None => true,
        }
    }

    /// The rectangle that `rect` reports, as a region of the integer plane:
    /// the box, or the empty rectangle at the origin before the first
    /// observation.
    pub open spec fn region(&self) -> Region {
        match self@ {
            Some(r) => r,
            None => Region { x: 0, y: 0, width: 0, height: 0 },
        }
    }

    /// What `rect` returns.
    pub closed spec fn spec_rect(&self) -> Rect<isize, Space> {
        match self.observed_rect {
            Some(r) => r,
            None => Rect {
                origin: Point2D { x: 0, y: 0, _unit: PhantomData },
                size: Size2D { width: 0, height: 0, _unit: PhantomData },
            },
        }
    }

    /// What `rect` returns is `region`, and its edges fit in `isize`.
    pub proof fn lemma_rect_is_region(&self)
        requires
            self.wf(),
        ensures
            self.rect()@ == self.region(),
            self.rect().fits(),
    {
    }

    /// Bounds that have observed nothing.
    pub fn new() -> (bounds: ExpandingBounds<Space>)
        ensures
            bounds.wf(),
            bounds@ is None,
    {
        ExpandingBounds { observed_rect: None }
    }

    /// Whether `p` lies within the box: `false` before the first observation.
    pub fn contains(&self, p: Point2D<isize, Space>) -> (inside: bool)
        requires
            self.wf(),
        ensures
            inside == self.rect()@.contains(p@),
            inside == self.region().contains(p@),
    {
        match self.observed_rect {
            Some(o) => o.contains(p),
            None => false,
        }
    }

    /// Whether `at` can be observed: whether the box that covers it as well
    /// can be held in `isize`.
    pub fn can_observe(&self, at: Point2D<isize, Space>) -> (possible: bool)
        requires
            self.wf(),
        ensures
            possible == grow(self@, at@).representable::<isize>(),
    {
        if at.x == isize::MAX || at.y == isize::MAX {
            return false;
        }
        match self.observed_rect {
            None => true,
            Some(b) => {
                let left: isize = if at.x < b.min_x() {
                    at.x
                } else {
                    b.min_x()
                };
                let right: isize = if b.max_x() <= at.x {
                    at.x + 1
                } else {
                    b.max_x()
                };
                let top: isize = if at.y < b.min_y() {
                    at.y
                } else {
                    b.min_y()
                };
                let bottom: isize = if b.max_y() <= at.y {
                    at.y + 1
                } else {
                    b.max_y()
                };
                right.checked_sub(left).is_some() && bottom.checked_sub(top).is_some()
            },
        }
    }

    /// Observes the point `at`: the box grows, on the sides where it must, to
    /// cover it.
    ///
    /// The grown box has to be representable in `isize`.
    pub fn observe(&mut self, at: Point2D<isize, Space>)
        requires
            old(self).wf(),
            grow(old(self)@, at@).representable::<isize>(),
        ensures
            final(self).wf(),
            final(self)@ == Some(grow(old(self)@, at@)),
    {
        self.observed_rect = match self.observed_rect {
            None => Some(rect(at.x, at.y, 1, 1)),
            Some(mut b) => {
                if b.contains(at) {
                    return ;
                }
                if at.x < b.min_x() {
                    b = rect(at.x, b.min_y(), b.max_x() - at.x, b.height())
                }
                if b.max_x() <= at.x {
                    b = rect(b.min_x(), b.min_y(), at.x - b.min_x() + 1, b.height())
                }
                if at.y < b.min_y() {
                    b = rect(b.min_x(), at.y, b.width(), b.max_y() - at.y)
                }
                if b.max_y() <= at.y {
                    b = rect(b.min_x(), b.min_y(), b.width(), at.y - b.min_y() + 1)
                }
                Some(b)
            },
        };
    }

    /// The least rectangle that covers every observed point, or the empty
    /// rectangle at the origin where none was observed.
    #[verifier::when_used_as_spec(spec_rect)]
    pub fn rect(&self) -> (r: Rect<isize, Space>)
        requires
            self.wf(),
        ensures
            r == self.spec_rect(),
            r@ == self.region(),
            r.fits(),
    {
        match self.observed_rect {
            Some(r) => r,
            None => rect(0, 0, 0, 0),
        }
    }
}

} // verus!
