//! The model shared by the two unbounded grids.

use vstd::prelude::*;
use vstd::set_lib::lemma_map_size;

use crate::expanding_bounds::{grow, observed};
use crate::region::Region;

verus! {

/// The mathematical model of a sparse grid: the cells that hold a value, and
/// the box of the points that were recorded when cells were filled.
pub struct SparseModel<T> {
    pub cells: Map<(int, int), T>,
    pub bounds: Option<Region>,
}

impl<T> SparseModel<T> {
    /// The grid that holds no cell and has recorded no point.
    pub open spec fn empty() -> SparseModel<T> {
        SparseModel { cells: Map::empty(), bounds: None }
    }

    /// The box is the bounding box of the cells that hold a value: there is
    /// none while no cell holds one.
    pub open spec fn wf(self) -> bool {
        match self.bounds {
            Some(r) => r.bounds(self.cells.dom()),
            None => self.cells.dom() == Set::<(int, int)>::empty(),
        }
    }

    /// The value at `p`, or `None` where the cell holds none.
    pub open spec fn get(self, p: (int, int)) -> Option<T> {
        if self.cells.contains_key(p) {
            Some(self.cells[p])
        } else {
            None
        }
    }

    /// The value at `p`, or `default` where the cell holds none.
    pub open spec fn get_or(self, p: (int, int), default: T) -> T {
        if self.cells.contains_key(p) {
            self.cells[p]
        } else {
            default
        }
    }

    /// The grid with `value` at `p` and with `p` recorded.
    pub open spec fn set(self, p: (int, int), value: T) -> SparseModel<T> {
        SparseModel { cells: self.cells.insert(p, value), bounds: Some(grow(self.bounds, p)) }
    }

    /// The rectangle that the grid reports: the box, or the empty rectangle at
    /// the origin while there is none.
    pub open spec fn rect(self) -> Region {
        match self.bounds {
            Some(r) => r,
            None => Region { x: 0, y: 0, width: 0, height: 0 },
        }
    }

    /// Whether `p` lies in the rectangle that the grid reports. This asks
    /// whether `p` lies in the region touched so far, not whether the cell at
    /// `p` holds a value.
    pub open spec fn contains(self, p: (int, int)) -> bool {
        self.rect().contains(p)
    }

    /// Every cell of the reported rectangle in row-major order, each with the
    /// value set in it, or with `default` where none was set.
    pub open spec fn dense(self, default: T) -> Seq<((int, int), T)> {
        self.rect().lattice().map_values(|p: (int, int)| (p, self.get_or(p, default)))
    }

    /// The grid after the values of `writes` were set in turn, each at its
    /// point, starting with the empty grid.
    pub open spec fn after(writes: Seq<((int, int), T)>) -> SparseModel<T>
        decreases writes.len(),
    {
        if writes.len() == 0 {
            Self::empty()
        } else {
            Self::after(writes.drop_last()).set(writes.last().0, writes.last().1)
        }
    }

    /// Whatever was set, the grid is well-formed, and its box is the box of
    /// the points at which something was set. A cell at which nothing was set
    /// reads as absent, and as the default where one is asked for.
    pub proof fn lemma_after(writes: Seq<((int, int), T)>, p: (int, int), default: T)
        ensures
            Self::after(writes).wf(),
            Self::after(writes).bounds == observed(
                writes.map_values(|w: ((int, int), T)| w.0),
            ),
            (forall|k: int| 0 <= k < writes.len() ==> (#[trigger] writes[k]).0 != p)
                ==> Self::after(writes).get(p) is None && Self::after(writes).get_or(p, default)
                == default,
        decreases writes.len(),
    {
        let points = writes.map_values(|w: ((int, int), T)| w.0);
        if writes.len() > 0 {
            let earlier = writes.drop_last();
            Self::lemma_after(earlier, p, default);
            Self::after(earlier).lemma_set(writes.last().0, writes.last().1, p, default);
            assert(points.drop_last() =~= earlier.map_values(|w: ((int, int), T)| w.0));
            if forall|k: int| 0 <= k < writes.len() ==> (#[trigger] writes[k]).0 != p {
                assert forall|k: int| 0 <= k < earlier.len() implies (#[trigger] earlier[k]).0
                    != p by {
                    assert(earlier[k] == writes[k]);
                }
                assert(writes[writes.len() - 1].0 != p);
            }
        }
    }

    /// The empty grid is well-formed; every cell of it reads as absent, and as
    /// the default where one is asked for; it contains no point.
    pub proof fn lemma_empty(p: (int, int), default: T)
        ensures
            Self::empty().wf(),
            Self::empty().get(p) is None,
            Self::empty().get_or(p, default) == default,
            !Self::empty().contains(p),
    {
    }

    /// After `value` was set at `p`, the cell at `p` reads as `value` and the
    /// reported rectangle contains `p`; every other cell reads as it did, and
    /// every point that the rectangle contained it still contains; the grid is
    /// still well-formed.
    pub proof fn lemma_set(self, p: (int, int), value: T, q: (int, int), default: T)
        requires
            self.wf(),
        ensures
            self.set(p, value).wf(),
            self.set(p, value).get(p) == Some(value),
            self.set(p, value).get_or(p, default) == value,
            self.set(p, value).contains(p),
            q != p ==> self.set(p, value).get(q) == self.get(q),
            q != p ==> self.set(p, value).get_or(q, default) == self.get_or(q, default),
            self.contains(q) ==> self.set(p, value).contains(q),
    {
        match self.bounds {
            Some(r) => {
                r.lemma_extend_bounds(self.cells.dom(), p);
            },
            None => {
                Region::lemma_unit_bounds(p);
                assert(self.cells.dom().insert(p) =~= set![p]);
            },
        }
        assert(self.set(p, value).cells.dom() =~= self.cells.dom().insert(p));
    }

    /// Setting a cell that holds a value already leaves the box as it is.
    pub proof fn lemma_set_present(self, p: (int, int), value: T)
        requires
            self.wf(),
            self.cells.contains_key(p),
        ensures
            self.set(p, value).bounds == self.bounds,
    {
    }
}

/// The map `cells` with its keys read as pairs of integers.
pub open spec fn int_keys<T>(cells: Map<(isize, isize), T>) -> Map<(int, int), T> {
    Map::new(
        |k: (int, int)|
            isize::MIN <= k.0 <= isize::MAX && isize::MIN <= k.1 <= isize::MAX
                && cells.contains_key((k.0 as isize, k.1 as isize)),
        |k: (int, int)| cells[(k.0 as isize, k.1 as isize)],
    )
}

/// Reading the keys as integers commutes with inserting a key.
pub proof fn lemma_int_keys_insert<T>(cells: Map<(isize, isize), T>, key: (isize, isize), value: T)
    ensures
        int_keys(cells.insert(key, value)) == int_keys(cells).insert(
            (key.0 as int, key.1 as int),
            value,
        ),
{
    assert(int_keys(cells.insert(key, value)) =~= int_keys(cells).insert(
        (key.0 as int, key.1 as int),
        value,
    ));
}

/// The empty map has no keys, however they are read.
pub proof fn lemma_int_keys_empty<T>()
    ensures
        int_keys(Map::<(isize, isize), T>::empty()) == Map::<(int, int), T>::empty(),
{
    assert(int_keys(Map::<(isize, isize), T>::empty()) =~= Map::<(int, int), T>::empty());
}

/// Reading the keys as integers keeps their number.
pub proof fn lemma_int_keys_len<T>(cells: Map<(isize, isize), T>)
    requires
        cells.dom().finite(),
    ensures
        int_keys(cells).dom().finite(),
        int_keys(cells).dom().len() == cells.dom().len(),
{
    let as_point = |key: (isize, isize)| (key.0 as int, key.1 as int);
    assert(cells.dom().map(as_point) =~= int_keys(cells).dom()) by {
        assert forall|p: (int, int)| int_keys(cells).dom().contains(p) implies cells.dom().map(
            as_point,
        ).contains(p) by {
            let key = (p.0 as isize, p.1 as isize);
            assert(cells.dom().contains(key) && as_point(key) == p);
        }
    }
    lemma_map_size(cells.dom(), int_keys(cells).dom(), as_point);
}

} // verus!
