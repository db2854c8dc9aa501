//! The unbounded grid whose absent cells are made by a factory on demand.

use std::collections::BTreeMap;
use vstd::prelude::*;

use crate::expanding_bounds::{grow, ExpandingBounds};
use crate::geometry::{Point2D, Rect, Size2D};
use crate::sparse_model::{int_keys, lemma_int_keys_empty, lemma_int_keys_insert, SparseModel};

verus! {

/// A grid without bounds: a cell holds a value once one was set or asked for
/// through a defaulting accessor, and the grid keeps the box of those cells.
///
/// `F` is the factory that makes the value of a cell that is asked for before
/// anything was set in it.
#[derive(Debug, PartialEq, Eq, Hash)]
pub struct EndlessGrid<T, Space, F> {
    expanding_bounds: ExpandingBounds<Space>,
    data: BTreeMap<(isize, isize), T>,
    default: F,
}

impl<T: Clone, Space, F: Clone> Clone for EndlessGrid<T, Space, F> {
    /// A grid with the same box and the same cells, and with a clone of the
    /// factory, of which nothing is known.
    fn clone(&self) -> (copy: Self)
        ensures
            copy@ == self@,
    {
        Self {
            expanding_bounds: self.expanding_bounds.clone(),
            data: self.data.clone(),
            default: self.default.clone(),
        }
    }
}

impl<T, Space, F> View for EndlessGrid<T, Space, F> {
    type V = SparseModel<T>;

    closed spec fn view(&self) -> SparseModel<T> {
        SparseModel { cells: int_keys(self.data@), bounds: self.expanding_bounds@ }
    }
}

/// `BTreeMap::get_mut` on the key `key`.
///
/// Not proved here: that it returns the slot of the value stored under `key`,
/// or `None` where the map holds no such key, and that the map afterwards
/// differs from the map before only in what the caller left in that slot.
#[verifier::external_body]
fn slot_mut<T>(data: &mut BTreeMap<(isize, isize), T>, key: (isize, isize)) -> (slot: Option<&mut T>)
    ensures
        match slot {
            Some(v) => {
                &&& old(data)@.contains_key(key)
                &&& *v == old(data)@[key]
                &&& final(data)@ == old(data)@.insert(key, *final(v))
            },
            None => !old(data)@.contains_key(key) && final(data)@ == old(data)@,
        },
{
    data.get_mut(&key)
}

impl<T, Space, F: Fn() -> T> EndlessGrid<T, Space, F> {
    /// The factory that makes the value of a cell asked for before anything
    /// was set in it.
    pub closed spec fn factory(&self) -> F {
        self.default
    }

    /// The invariant: the factory can be called, and the box is the bounding
    /// box of the cells that hold a value.
    pub closed spec fn wf(&self) -> bool {
        &&& self.expanding_bounds.wf()
        &&& self.default.requires(())
        &&& self@.wf()
    }

    /// The model of a well-formed grid is well-formed.
    pub proof fn lemma_view_wf(&self)
        requires
            self.wf(),
        ensures
            self@.wf(),
    {
    }

    /// An empty grid whose cells are made by `default` when they are asked
    /// for.
    pub fn new(default: F) -> (grid: Self)
        requires
            default.requires(()),
        ensures
            grid.wf(),
            grid@ == SparseModel::<T>::empty(),
            grid.factory() == default,
    {
        proof {
            lemma_int_keys_empty::<T>();
        }
        Self { expanding_bounds: ExpandingBounds::new(), data: BTreeMap::new(), default }
    }

    /// Whether `p` lies in the box of the cells that hold a value. A cell
    /// inside the box need not hold a value itself.
    pub fn contains(&self, p: Point2D<isize, Space>) -> (inside: bool)
        requires
            self.wf(),
        ensures
            inside == self@.contains(p@),
    {
        self.expanding_bounds.contains(p)
    }

    /// The bounding box of the cells that hold a value, or the empty
    /// rectangle at the origin while none does.
    pub fn rect(&self) -> (r: Rect<isize, Space>)
        requires
            self.wf(),
        ensures
            r@ == self@.rect(),
            r.fits(),
    {
        self.expanding_bounds.rect()
    }

    /// The size of `rect`.
    pub fn size(&self) -> (s: Size2D<isize, Space>)
        requires
            self.wf(),
        ensures
            s@ == (self@.rect().width, self@.rect().height),
    {
        self.rect().size
    }

    /// The value at `p`, or `None` where the cell holds none. Nothing
    /// changes.
    pub fn get(&self, p: Point2D<isize, Space>) -> (value: Option<&T>)
        requires
            self.wf(),
        ensures
            match value {
                Some(v) => self@.get(p@) == Some(*v),
                None => self@.get(p@) is None,
            },
    {
        self.data.get(&(p.x, p.y))
    }

    /// The value at `p`; a cell that holds none is first given a value made
    /// by the factory, and `p` is recorded.
    pub fn get_defaulting(&mut self, p: Point2D<isize, Space>) -> (value: &T)
        requires
            old(self).wf(),
            old(self)@.get(p@) is None ==> grow(old(self)@.bounds, p@).representable::<isize>(),
        ensures
            final(self).wf(),
            final(self).factory() == old(self).factory(),
            match old(self)@.get(p@) {
                Some(held) => *value == held && final(self)@ == old(self)@,
                None => old(self).factory().ensures((), *value) && final(self)@ == old(self)@.set(
                    p@,
                    *value,
                ),
            },
    {
        proof {
            if self@.cells.contains_key(p@) {
                assert(self@.cells.insert(p@, self@.cells[p@]) =~= self@.cells);
            }
        }
        self.get_mut_defaulting(p)
    }

    /// The cell at `p`, to read and to write, or `None` where the cell holds
    /// no value. Nothing is recorded.
    pub fn get_mut(&mut self, p: Point2D<isize, Space>) -> (cell: Option<&mut T>)
        requires
            old(self).wf(),
        ensures
            final(self).wf(),
            final(self).factory() == old(self).factory(),
            final(self)@.bounds == old(self)@.bounds,
            match cell {
                Some(v) => {
                    &&& old(self)@.get(p@) == Some(*v)
                    &&& final(self)@ == old(self)@.set(p@, *final(v))
                },
                None => old(self)@.get(p@) is None && final(self)@ == old(self)@,
            },
    {
        proof {
            assert forall|value: T| #[trigger]
                int_keys(self.data@.insert((p.x, p.y), value)) == self@.cells.insert(
                    p@,
                    value,
                ) by {
                lemma_int_keys_insert(self.data@, (p.x, p.y), value);
            }
            assert forall|value: T| self@.cells.contains_key(p@) implies #[trigger] self@.set(
                p@,
                value,
            ).wf() && self@.set(p@, value).bounds == self@.bounds by {
                self@.lemma_set(p@, value, p@, value);
                self@.lemma_set_present(p@, value);
            }
        }
        slot_mut(&mut self.data, (p.x, p.y))
    }

    /// The cell at `p`, to read and to write; a cell that holds no value is
    /// first given one made by the factory, and `p` is recorded.
    pub fn get_mut_defaulting(&mut self, p: Point2D<isize, Space>) -> (cell: &mut T)
        requires
            old(self).wf(),
            old(self)@.get(p@) is None ==> grow(old(self)@.bounds, p@).representable::<isize>(),
        ensures
            final(self).wf(),
            final(self).factory() == old(self).factory(),
            match old(self)@.get(p@) {
                Some(held) => *cell == held && final(self)@.bounds == old(self)@.bounds,
                None => old(self).factory().ensures((), *cell),
            },
            final(self)@ == old(self)@.set(p@, *final(cell)),
    {
        let ghost before = self@;
        if !self.data.contains_key(&(p.x, p.y)) {
            let made = (self.default)();
            proof {
                lemma_int_keys_insert(self.data@, (p.x, p.y), made);
                before.lemma_set(p@, made, p@, made);
            }
            self.data.insert((p.x, p.y), made);
            self.expanding_bounds.observe(p);
        }
        proof {
            assert(self@.bounds == Some(grow(before.bounds, p@)));
            assert forall|value: T| #[trigger]
                int_keys(self.data@.insert((p.x, p.y), value)) == before.cells.insert(
                    p@,
                    value,
                ) by {
                lemma_int_keys_insert(self.data@, (p.x, p.y), value);
                assert(self@.cells.insert(p@, value) =~= before.cells.insert(p@, value));
            }
            assert forall|value: T| #[trigger] before.set(p@, value).wf() by {
                before.lemma_set(p@, value, p@, value);
            }
        }
        slot_mut(&mut self.data, (p.x, p.y)).unwrap()
    }

    /// Whether a value can be set at `p`: whether the box that covers `p` as
    /// well can be held in `isize`.
    pub fn can_set(&self, p: Point2D<isize, Space>) -> (possible: bool)
        requires
            self.wf(),
        ensures
            possible == grow(self@.bounds, p@).representable::<isize>(),
    {
        self.expanding_bounds.can_observe(p)
    }

    /// Sets the value at `p` and records `p`, whether or not the cell held a
    /// value before.
    pub fn set(&mut self, p: Point2D<isize, Space>, new_val: T)
        requires
            old(self).wf(),
            grow(old(self)@.bounds, p@).representable::<isize>(),
        ensures
            final(self).wf(),
            final(self).factory() == old(self).factory(),
            final(self)@ == old(self)@.set(p@, new_val),
    {
        proof {
            lemma_int_keys_insert(self.data@, (p.x, p.y), new_val);
            self@.lemma_set(p@, new_val, p@, new_val);
        }
        self.expanding_bounds.observe(p);
        self.data.insert((p.x, p.y), new_val);
    }
}

} // verus!
