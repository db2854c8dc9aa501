//! The dense grid: a value in every cell of a fixed rectangle.

use vstd::prelude::*;

use crate::geometry::{rect, Point2D, Rect, Size2D};
use crate::points_in::PointsIn;
use crate::region::Region;

verus! {

/// The mathematical model of a dense grid: its rectangle, and the value of
/// each cell inside it.
pub struct GridModel<T> {
    pub rect: Region,
    pub cells: Map<(int, int), T>,
}

impl<T> GridModel<T> {
    /// The rectangle has no negative side, and the cells are exactly the
    /// lattice points inside it.
    pub open spec fn wf(self) -> bool {
        &&& self.rect.width >= 0
        &&& self.rect.height >= 0
        &&& self.cells.dom() == self.rect.points()
    }

    /// The value at `p`, or `None` where `p` lies outside the rectangle.
    pub open spec fn get(self, p: (int, int)) -> Option<T> {
        if self.rect.contains(p) {
            Some(self.cells[p])
        } else {
            None
        }
    }

    /// The grid with `value` at `p`, or the same grid where `p` lies outside
    /// the rectangle.
    pub open spec fn set(self, p: (int, int), value: T) -> GridModel<T> {
        if self.rect.contains(p) {
            GridModel { rect: self.rect, cells: self.cells.insert(p, value) }
        } else {
            self
        }
    }

    /// A value written to a cell inside the rectangle is the value read back
    /// from it, and no other cell changes; a cell outside the rectangle reads
    /// as absent, before and after any write.
    pub proof fn lemma_set_get(self, p: (int, int), value: T, q: (int, int))
        requires
            self.wf(),
        ensures
            self.set(p, value).wf(),
            self.set(p, value).rect == self.rect,
            self.rect.contains(p) ==> self.set(p, value).get(p) == Some(value),
            !self.rect.contains(p) ==> self.get(p) is None && self.set(p, value) == self,
            q != p ==> self.set(p, value).get(q) == self.get(q),
    {
        if self.rect.contains(p) {
            assert(self.cells.insert(p, value).dom() =~= self.rect.points());
        }
    }
}

/// A grid over a fixed rectangle that holds a value in every cell.
#[derive(Debug, PartialEq, Eq, Hash)]
pub struct Grid<T, Space> {
    rect: Rect<isize, Space>,
    data: Vec<T>,
}

impl<T: Clone, Space> Clone for Grid<T, Space> {
    /// A grid over the same rectangle whose every cell holds a clone of the
    /// value in the same cell of `self`.
    fn clone(&self) -> (copy: Self)
        ensures
            copy@.rect == self@.rect,
            self.wf() ==> copy.wf() && forall|p: (int, int)|
                self@.rect.contains(p) ==> cloned::<T>(self@.cells[p], #[trigger] copy@.cells[p]),
    {
        let copy = Grid { rect: self.rect, data: self.data.clone() };
        proof {
            if self.wf() {
                assert forall|p: (int, int)| self@.rect.contains(p) implies cloned::<T>(
                    self@.cells[p],
                    #[trigger] copy@.cells[p],
                ) by {
                    self.rect@.lemma_lattice_len();
                    self.rect@.lemma_lattice_index(p);
                }
            }
        }
        copy
    }
}

impl<T, Space> Default for Grid<T, Space> {
    /// The grid over the empty rectangle at the origin, which holds no cell.
    fn default() -> (grid: Self)
        ensures
            grid.wf(),
            grid@.wf(),
            grid@.rect == (Region { x: 0, y: 0, width: 0, height: 0 }),
    {
        let grid = Grid { rect: rect(0, 0, 0, 0), data: Vec::new() };
        proof {
            grid.lemma_view_wf();
        }
        grid
    }
}

impl<T, Space> View for Grid<T, Space> {
    type V = GridModel<T>;

    closed spec fn view(&self) -> GridModel<T> {
        row_major(self.rect@, self.data@)
    }
}

/// The grid over `rect` whose cells are stored in `data` row by row, the top
/// row first and each row from the left to the right.
spec fn row_major<T>(rect: Region, data: Seq<T>) -> GridModel<T> {
    GridModel {
        rect,
        cells: Map::new(|p: (int, int)| rect.contains(p), |p: (int, int)| data[rect.index_of(p)]),
    }
}

/// Replacing the stored value of the cell `p` sets that cell and no other.
proof fn lemma_row_major_update<T>(rect: Region, data: Seq<T>, p: (int, int), value: T)
    requires
        rect.contains(p),
        data.len() == rect.width * rect.height,
    ensures
        row_major(rect, data.update(rect.index_of(p), value)) == row_major(rect, data).set(
            p,
            value,
        ),
{
    let stored = data.update(rect.index_of(p), value);
    rect.lemma_lattice_len();
    rect.lemma_lattice_index(p);
    assert forall|q: (int, int)| rect.contains(q) implies #[trigger] row_major(
        rect,
        stored,
    ).cells[q] == row_major(rect, data).set(p, value).cells[q] by {
        rect.lemma_lattice_index(q);
    }
    assert(row_major(rect, stored).cells =~= row_major(rect, data).set(p, value).cells);
}

impl<T, Space> Grid<T, Space> {
    /// The invariant: the rectangle has no negative side and its edges fit in
    /// `isize`, and the storage holds one value for each of its cells.
    pub closed spec fn wf(&self) -> bool {
        &&& self.rect.fits()
        &&& self.rect@.width >= 0
        &&& self.rect@.height >= 0
        &&& self.data@.len() == self.rect@.width * self.rect@.height
    }

    /// The model of a well-formed grid is well-formed.
    pub proof fn lemma_view_wf(&self)
        requires
            self.wf(),
        ensures
            self@.wf(),
    {
        assert(self@.cells.dom() =~= self@.rect.points());
    }

    /// A grid over `rect` whose every cell holds a value that `default` made
    /// for it, one call for each cell.
    pub fn new(rect: Rect<isize, Space>, default: impl Fn() -> T) -> (grid: Self)
        requires
            rect@.width >= 0,
            rect@.height >= 0,
            rect.fits(),
            rect@.width * rect@.height <= usize::MAX,
            default.requires(()),
        ensures
            grid.wf(),
            grid@.wf(),
            grid@.rect == rect@,
            forall|p: (int, int)| rect@.contains(p) ==> default.ensures((), #[trigger] grid@.cells[p]),
    {
        let capacity: usize = rect.size.width as usize * rect.size.height as usize;
        let mut data: Vec<T> = Vec::with_capacity(capacity);
        for filled in 0..capacity
            invariant
                default.requires(()),
                data@.len() == filled,
                forall|k: int| 0 <= k < filled ==> default.ensures((), #[trigger] data@[k]),
        {
            data.push(default());
        }
        let grid = Grid { rect, data };
        proof {
            grid.lemma_view_wf();
            assert forall|p: (int, int)| rect@.contains(p) implies default.ensures(
                (),
                #[trigger] grid@.cells[p],
            ) by {
                rect@.lemma_lattice_len();
                rect@.lemma_lattice_index(p);
            }
        }
        grid
    }

    /// Gives the grid the rectangle `rect`. A cell that lies in the old and in
    /// the new rectangle keeps its value; every other cell of the new
    /// rectangle holds a value that `default` made for it.
    pub fn resize(&mut self, rect: Rect<isize, Space>, default: impl Fn() -> T)
        requires
            old(self).wf(),
            rect@.width >= 0,
            rect@.height >= 0,
            rect.fits(),
            rect@.width * rect@.height <= usize::MAX,
            default.requires(()),
        ensures
            final(self).wf(),
            final(self)@.wf(),
            final(self)@.rect == rect@,
            forall|p: (int, int)|
                rect@.contains(p) && old(self)@.rect.contains(p) ==> #[trigger] final(self)@.cells[p]
                    == old(self)@.cells[p],
            forall|p: (int, int)|
                rect@.contains(p) && !old(self)@.rect.contains(p) ==> default.ensures(
                    (),
                    #[trigger] final(self)@.cells[p],
                ),
    {
        let mut grid2 = Grid::new(rect, default);
        if let Some(inter) = rect.intersection(&self.rect) {
            let ghost all = inter@.lattice();
            let mut points = <isize as PointsIn<Space>>::points_in(inter);
            loop
                invariant
                    self.wf(),
                    grid2.wf(),
                    points.wf(),
                    self@.rect == old(self)@.rect,
                    grid2@.rect == rect@,
                    rect@.intersection(old(self)@.rect) == Some(inter@),
                    all == inter@.lattice(),
                    points@.len() <= all.len(),
                    points@ == all.skip(all.len() - points@.len()),
                    forall|p: (int, int)|
                        inter@.contains(p) && inter@.index_of(p) < all.len() - points@.len()
                            ==> #[trigger] grid2@.cells[p] == old(self)@.cells[p],
                    forall|p: (int, int)|
                        inter@.contains(p) && inter@.index_of(p) >= all.len() - points@.len()
                            ==> #[trigger] self@.cells[p] == old(self)@.cells[p],
                    forall|p: (int, int)|
                        rect@.contains(p) && !(inter@.contains(p) && inter@.index_of(p) < all.len()
                            - points@.len()) ==> default.ensures((), #[trigger] grid2@.cells[p]),
                ensures
                    points@.len() == 0,
                decreases points@.len(),
            {
                let ghost done = all.len() - points@.len();
                match points.next() {
                    Some(xy) => {
                        proof {
                            rect@.lemma_intersection_points(old(self)@.rect, xy@);
                            inter@.lemma_lattice_point(done);
                            assert forall|p: (int, int)| inter@.contains(p) && p != xy@ implies inter@.index_of(
                                p,
                            ) != done by {
                                inter@.lemma_lattice_index(p);
                            }
                        }
                        core::mem::swap(grid2.get_mut(xy).unwrap(), self.get_mut(xy).unwrap());
                        proof {
                            assert(points@ =~= all.skip(all.len() - points@.len()));
                        }
                    },
                    None => {
                        break ;
                    },
                }
            }
            proof {
                assert forall|p: (int, int)|
                    rect@.contains(p) && old(self)@.rect.contains(p) implies #[trigger] grid2@.cells[p]
                    == old(self)@.cells[p] by {
                    rect@.lemma_intersection_points(old(self)@.rect, p);
                    inter@.lemma_lattice_index(p);
                }
                assert forall|p: (int, int)|
                    rect@.contains(p) && !old(self)@.rect.contains(p) implies default.ensures(
                    (),
                    #[trigger] grid2@.cells[p],
                ) by {
                    rect@.lemma_intersection_points(old(self)@.rect, p);
                }
            }
        } else {
            proof {
                assert forall|p: (int, int)| rect@.contains(p) implies !old(self)@.rect.contains(
                    p,
                ) by {
                    rect@.lemma_intersection_points(old(self)@.rect, p);
                }
            }
        }
        *self = grid2;
    }

    /// Whether `p` lies inside the grid's rectangle.
    pub fn contains(&self, p: Point2D<isize, Space>) -> (inside: bool)
        requires
            self.wf(),
        ensures
            inside == self@.rect.contains(p@),
    {
        self.rect.contains(p)
    }

    fn flat_index(&self, p: Point2D<isize, Space>) -> (index: usize)
        requires
            self.wf(),
            self.rect@.contains(p@),
        ensures
            index == self.rect@.index_of(p@),
            index < self.data@.len(),
    {
        proof {
            self.rect@.lemma_lattice_len();
            self.rect@.lemma_lattice_index(p@);
            let row = p@.1 - self.rect@.y;
            assert(0 <= self.rect@.width * row <= self.rect@.index_of(p@)) by (nonlinear_arith)
                requires
                    0 <= row,
                    0 <= self.rect@.width,
                    self.rect@.index_of(p@) == row * self.rect@.width + (p@.0 - self.rect@.x),
                    0 <= p@.0 - self.rect@.x,
            ;
        }
        assert(self.data.len() == self.data@.len());
        let w: usize = self.rect.size.width as usize;
        let y: usize = (p.y - self.rect.origin.y) as usize;
        let x: usize = (p.x - self.rect.origin.x) as usize;
        w * y + x
    }

    /// The grid's rectangle.
    pub fn rect(&self) -> (r: Rect<isize, Space>)
        requires
            self.wf(),
        ensures
            r@ == self@.rect,
            r.fits(),
    {
        self.rect
    }

    /// The size of the grid's rectangle.
    pub fn size(&self) -> (s: Size2D<isize, Space>)
        ensures
            s@ == (self@.rect.width, self@.rect.height),
    {
        self.rect.size
    }

    /// The value at `p`, or `None` where `p` lies outside the rectangle.
    pub fn get(&self, p: Point2D<isize, Space>) -> (value: Option<&T>)
        requires
            self.wf(),
        ensures
            match value {
                Some(v) => self@.get(p@) == Some(*v),
                None => self@.get(p@) is None,
            },
    {
        if self.contains(p) {
            let index = self.flat_index(p);

            Some(&self.data[index])
        } else {
            None
        }
    }

    /// The cell at `p`, to read and to write, or `None` where `p` lies outside
    /// the rectangle. What the caller leaves in the cell is the cell's value
    /// afterwards; nothing else changes.
    pub fn get_mut(&mut self, p: Point2D<isize, Space>) -> (cell: Option<&mut T>)
        requires
            old(self).wf(),
        ensures
            final(self).wf(),
            match cell {
                Some(v) => {
                    &&& old(self)@.get(p@) == Some(*v)
                    &&& final(self)@ == old(self)@.set(p@, *final(v))
                },
                None => old(self)@.get(p@) is None && final(self)@ == old(self)@,
            },
    {
        if self.contains(p) {
            let index = self.flat_index(p);

            proof {
                assert forall|value: T|
                    row_major(self.rect@, #[trigger] self.data@.update(index as int, value))
                        == self@.set(p@, value) by {
                    lemma_row_major_update(self.rect@, self.data@, p@, value);
                }
            }
            Some(&mut self.data[index])
        } else {
            None
        }
    }

    /// Replaces the value at `p`; does nothing where `p` lies outside the
    /// rectangle.
    pub fn set(&mut self, p: Point2D<isize, Space>, new_val: T)
        requires
            old(self).wf(),
        ensures
            final(self).wf(),
            final(self)@ == old(self)@.set(p@, new_val),
    {
        match self.get_mut(p) {
            Some(val) => {
                *val = new_val;
            },
            None => (),
        }
    }
}

} // verus!
