//! The unbounded grid of copyable values whose absent cells read as one
//! default value.

use std::collections::BTreeMap;
use vstd::prelude::*;
use vstd::std_specs::btree::spec_btree_map_iter;
use vstd::std_specs::cmp::OrdSpec;
use vstd::std_specs::iter::IteratorSpec;

use crate::expanding_bounds::{grow, ExpandingBounds};
use crate::geometry::{point2, Point2D, Rect, Size2D};
use crate::points_in::{LatticePoints, PointsIn};
use crate::sparse_model::{
    int_keys, lemma_int_keys_empty, lemma_int_keys_insert, lemma_int_keys_len, SparseModel,
};

verus! {

/// A grid without bounds for values that are cheap to copy: a cell in which
/// nothing was set reads as one fixed default value.
#[derive(Debug, PartialEq, Eq, Hash)]
pub struct CopyEndlessGrid<T: Copy, Space> {
    expanding_bounds: ExpandingBounds<Space>,
    data: BTreeMap<(isize, isize), T>,
    default: T,
}

impl<T: Copy, Space> Clone for CopyEndlessGrid<T, Space> {
    /// A grid with the same cells, the same box and the same default.
    fn clone(&self) -> (copy: Self)
        ensures
            copy@ == self@,
            copy.default_value() == self.default_value(),
            self.wf() ==> copy.wf(),
    {
        Self {
            expanding_bounds: self.expanding_bounds.clone(),
            data: self.data.clone(),
            default: self.default,
        }
    }
}

impl<T: Copy, Space> View for CopyEndlessGrid<T, Space> {
    type V = SparseModel<T>;

    closed spec fn view(&self) -> SparseModel<T> {
        SparseModel { cells: int_keys(self.data@), bounds: self.expanding_bounds@ }
    }
}

/// Whether the point `a` comes before the point `b` in the order of the
/// stored cells: `a` lies further left, or in the same column and higher up.
pub open spec fn ascending(a: (int, int), b: (int, int)) -> bool {
    a.0 < b.0 || (a.0 == b.0 && a.1 < b.1)
}

/// The key of a stored cell as a point of the integer plane.
spec fn key_point(key: (isize, isize)) -> (int, int) {
    (key.0 as int, key.1 as int)
}

/// The point `p`, within the range of `isize`, as the key of a stored cell.
spec fn to_key(p: (int, int)) -> (isize, isize) {
    (p.0 as isize, p.1 as isize)
}

/// The order in which the map keeps its keys is `ascending`.
proof fn lemma_key_order(a: (isize, isize), b: (isize, isize))
    ensures
        a.cmp_spec(&b) is Less <==> ascending(key_point(a), key_point(b)),
{
}

impl<T: Copy, Space> CopyEndlessGrid<T, Space> {
    /// The value that a cell reads as while nothing was set in it.
    pub closed spec fn default_value(&self) -> T {
        self.default
    }

    /// The invariant: the box is the bounding box of the cells in which a
    /// value was set.
    pub closed spec fn wf(&self) -> bool {
        &&& self.expanding_bounds.wf()
        &&& self@.wf()
    }

    /// The model of a well-formed grid is well-formed.
    pub proof fn lemma_view_wf(&self)
        requires
            self.wf(),
        ensures
            self@.wf(),
    {
    }

    /// An empty grid whose cells read as `default`.
    pub fn new(default: T) -> (grid: Self)
        ensures
            grid.wf(),
            grid@ == SparseModel::<T>::empty(),
            grid.default_value() == default,
    {
        proof {
            lemma_int_keys_empty::<T>();
        }
        Self { expanding_bounds: ExpandingBounds::new(), data: BTreeMap::new(), default }
    }

    /// Every cell of the bounding box in row-major order, each with the value
    /// read there: the value set, or the default where none was set.
    pub fn iter(&self) -> (cells: Cells<'_, T, Space>)
        requires
            self.wf(),
        ensures
            cells.wf(),
            cells@ == self@.dense(self.default_value()),
    {
        Cells { points: <isize as PointsIn<Space>>::points_in(self.rect()), grid: self }
    }

    /// The cells in which a value was set, each as its point and that value,
    /// in ascending order of the points: by `x` first, then by `y`.
    pub fn iter_populated(&self) -> (entries: Vec<(Point2D<isize, Space>, T)>)
        requires
            self.wf(),
        ensures
            entries@.len() == self@.cells.dom().len(),
            forall|i: int|
                0 <= i < entries@.len() ==> self@.get((#[trigger] entries@[i]).0@) == Some(
                    entries@[i].1,
                ),
            forall|p: (int, int)|
                self@.cells.contains_key(p) ==> exists|i: int|
                    0 <= i < entries@.len() && (#[trigger] entries@[i]).0@ == p,
            forall|i: int, j: int|
                0 <= i < j < entries@.len() ==> ascending(
                    (#[trigger] entries@[i]).0@,
                    (#[trigger] entries@[j]).0@,
                ),
    {
        let ghost stored = spec_btree_map_iter(&self.data).remaining();
        let mut entries: Vec<(Point2D<isize, Space>, T)> = Vec::new();
        for pair in it: self.data.iter()
            invariant
                it.seq() == stored,
                entries@.len() == it.index(),
                forall|k: int|
                    0 <= k < it.index() ==> (#[trigger] entries@[k]).0@ == key_point(*stored[k].0)
                        && entries@[k].1 == *stored[k].1,
        {
            entries.push((point2(pair.0.0, pair.0.1), *pair.1));
        }
        proof {
            lemma_int_keys_len(self.data@);
            let keys = stored.map_values(|kv: (&(isize, isize), &T)| *kv.0);
            assert forall|i: int, j: int| 0 <= i < j < entries@.len() implies ascending(
                (#[trigger] entries@[i]).0@,
                (#[trigger] entries@[j]).0@,
            ) by {
                lemma_key_order(keys[i], keys[j]);
            }
            assert forall|p: (int, int)| self@.cells.contains_key(p) implies exists|i: int|
                0 <= i < entries@.len() && (#[trigger] entries@[i]).0@ == p by {
                let key = to_key(p);
                let i = stored.index_of((&key, &self.data@[key]));
                assert(entries@[i].0@ == p);
            }
        }
        entries
    }

    /// Whether `p` lies in the box of the cells in which a value was set. A
    /// cell inside the box need not have been set itself.
    pub fn contains(&self, p: Point2D<isize, Space>) -> (inside: bool)
        requires
            self.wf(),
        ensures
            inside == self@.contains(p@),
    {
        self.expanding_bounds.contains(p)
    }

    /// The bounding box of the cells in which a value was set, or the empty
    /// rectangle at the origin while there is none.
    pub fn rect(&self) -> (r: Rect<isize, Space>)
        requires
            self.wf(),
        ensures
            r@ == self@.rect(),
            r.fits(),
    {
        self.expanding_bounds.rect()
    }

    /// The size of `rect`.
    pub fn size(&self) -> (s: Size2D<isize, Space>)
        requires
            self.wf(),
        ensures
            s@ == (self@.rect().width, self@.rect().height),
    {
        self.rect().size
    }

    /// The value set at `p`, or the default where none was set.
    pub fn get(&self, p: Point2D<isize, Space>) -> (value: T)
        requires
            self.wf(),
        ensures
            value == self@.get_or(p@, self.default_value()),
    {
        match self.data.get(&(p.x, p.y)) {
            Some(x) => *x,
            None => self.default,
        }
    }

    /// Whether a value can be set at `p`: whether the box that covers `p` as
    /// well can be held in `isize`.
    pub fn can_set(&self, p: Point2D<isize, Space>) -> (possible: bool)
        requires
            self.wf(),
        ensures
            possible == grow(self@.bounds, p@).representable::<isize>(),
    {
        self.expanding_bounds.can_observe(p)
    }

    /// Sets the value at `p` and records `p`, whether or not a value was set
    /// there before.
    pub fn set(&mut self, p: Point2D<isize, Space>, new_val: T)
        requires
            old(self).wf(),
            grow(old(self)@.bounds, p@).representable::<isize>(),
        ensures
            final(self).wf(),
            final(self).default_value() == old(self).default_value(),
            final(self)@ == old(self)@.set(p@, new_val),
    {
        proof {
            lemma_int_keys_insert(self.data@, (p.x, p.y), new_val);
            self@.lemma_set(p@, new_val, p@, new_val);
        }
        self.expanding_bounds.observe(p);
        self.data.insert((p.x, p.y), new_val);
    }
}

/// The cells of the bounding box of a grid in row-major order, handed out one
/// at a time from either end, each as its point and the value read there.
#[derive(Debug)]
pub struct Cells<'a, T: Copy, Space> {
    points: LatticePoints<isize, Space>,
    grid: &'a CopyEndlessGrid<T, Space>,
}

impl<'a, T: Copy, Space> View for Cells<'a, T, Space> {
    type V = Seq<((int, int), T)>;

    /// The cells that are left, in the order in which `next` hands them out.
    closed spec fn view(&self) -> Seq<((int, int), T)> {
        self.points@.map_values(
            |p: (int, int)| (p, self.grid@.get_or(p, self.grid.default_value())),
        )
    }
}

impl<'a, T: Copy, Space> Cells<'a, T, Space> {
    /// The invariant: that of the grid and that of the cursor over its points.
    pub closed spec fn wf(&self) -> bool {
        self.points.wf() && self.grid.wf()
    }

    /// Hands out the first cell that is left, or `None` where none is.
    pub fn next(&mut self) -> (cell: Option<(Point2D<isize, Space>, T)>)
        requires
            old(self).wf(),
        ensures
            final(self).wf(),
            match cell {
                Some(c) => {
                    &&& old(self)@.len() > 0
                    &&& (c.0@, c.1) == old(self)@.first()
                    &&& final(self)@ == old(self)@.drop_first()
                },
                None => old(self)@.len() == 0 && final(self)@ == old(self)@,
            },
    {
        match self.points.next() {
            Some(p) => {
                assert(self@ =~= old(self)@.drop_first());
                Some((p, self.grid.get(p)))
            },
            None => None,
        }
    }

    /// Hands out the last cell that is left, or `None` where none is.
    pub fn next_back(&mut self) -> (cell: Option<(Point2D<isize, Space>, T)>)
        requires
            old(self).wf(),
        ensures
            final(self).wf(),
            match cell {
                Some(c) => {
                    &&& old(self)@.len() > 0
                    &&& (c.0@, c.1) == old(self)@.last()
                    &&& final(self)@ == old(self)@.drop_last()
                },
                None => old(self)@.len() == 0 && final(self)@ == old(self)@,
            },
    {
        match self.points.next_back() {
            Some(p) => {
                assert(self@ =~= old(self)@.drop_last());
                Some((p, self.grid.get(p)))
            },
            None => None,
        }
    }
}

impl<T: Copy + Default, Space> Default for CopyEndlessGrid<T, Space> {
    /// An empty grid whose cells read as the default value of `T`.
    fn default() -> (grid: Self)
        ensures
            grid.wf(),
            grid@ == SparseModel::<T>::empty(),
            call_ensures(T::default, (), grid.default_value()),
    {
        Self::new(T::default())
    }
}

} // verus!
