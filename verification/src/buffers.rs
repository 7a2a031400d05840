use vstd::prelude::*;
use crate::grid::{Field, Grid};
use crate::stencil::{advances, pass, rule_of, total};

verus! {

/// Names one of the two buffers of a pair.
#[derive(Clone, Copy, Debug, PartialEq, Eq, Structural)]
pub enum Slot {
    First,
    Second,
}

impl Slot {
    /// The slot that `self` is not.
    pub open spec fn other(self) -> Slot {
        match self {
            Slot::First => Slot::Second,
            Slot::Second => Slot::First,
        }
    }

    /// The slot that `self` is not.
    pub fn flipped(self) -> (r: Slot)
        ensures
            r == self.other(),
    {
        match self {
            Slot::First => Slot::Second,
            Slot::Second => Slot::First,
        }
    }
}

/// Two grids of one shape that take turns as read source and write target.
///
/// The marker names the buffer that was written last: it is the current
/// state and the source of the next pass. The other buffer is the scratch
/// that the next pass writes. Exchanging the roles moves the marker and no
/// cell.
#[derive(Debug)]
pub struct DoubleBuffer<T> {
    first: Grid<T>,
    second: Grid<T>,
    latest: Slot,
}

impl<T> DoubleBuffer<T> {
    /// The buffer that was written last.
    pub closed spec fn marker(&self) -> Slot {
        self.latest
    }

    /// The contents of the given buffer.
    pub closed spec fn slot(&self, slot: Slot) -> Field<T> {
        match slot {
            Slot::First => self.first@,
            Slot::Second => self.second@,
        }
    }

    /// The latest state: the buffer that the marker names.
    pub open spec fn current(&self) -> Field<T> {
        self.slot(self.marker())
    }

    /// The buffer that the next pass writes.
    pub open spec fn scratch(&self) -> Field<T> {
        self.slot(self.marker().other())
    }

    /// Both buffers are well-formed, have one shape and agree on every
    /// boundary cell.
    pub open spec fn wf(&self) -> bool {
        &&& self.current().wf()
        &&& self.scratch().wf()
        &&& self.scratch().same_shape(self.current())
        &&& forall|i: int, j: int|
            self.current().boundary(i, j) ==> #[trigger] self.scratch().at(i, j)
                == self.current().at(i, j)
    }

    /// Which buffer was written last.
    pub fn last_written(&self) -> (r: Slot)
        ensures
            r == self.marker(),
    {
        self.latest
    }

    /// The latest state.
    pub fn latest(&self) -> (r: &Grid<T>)
        ensures
            r@ == self.current(),
    {
        match self.latest {
            Slot::First => &self.first,
            Slot::Second => &self.second,
        }
    }

    /// Exchanges the roles of the two buffers by moving the marker. What the
    /// last pass wrote becomes the current state, and the former state
    /// becomes the scratch.
    pub fn swap(&mut self)
        requires
            old(self).wf(),
        ensures
            final(self).wf(),
            final(self).marker() == old(self).marker().other(),
            final(self).slot(Slot::First) == old(self).slot(Slot::First),
            final(self).slot(Slot::Second) == old(self).slot(Slot::Second),
            final(self).current() == old(self).scratch(),
            final(self).scratch() == old(self).current(),
    {
        self.latest = self.latest.flipped();
    }

    /// Gives up the pair for the buffer that was written last.
    pub fn into_latest(self) -> (r: Grid<T>)
        ensures
            r@ == self.current(),
    {
        match self.latest {
            Slot::First => self.first,
            Slot::Second => self.second,
        }
    }
}

impl<T: Copy> DoubleBuffer<T> {
    /// A pair whose two buffers are copies of `field`. The given grid is
    /// left as it is.
    pub fn new(field: &Grid<T>) -> (r: DoubleBuffer<T>)
        requires
            field@.wf(),
        ensures
            r.wf(),
            r.marker() == Slot::First,
            r.current() == field@,
            r.scratch() == field@,
    {
        DoubleBuffer { first: field.duplicate(), second: field.duplicate(), latest: Slot::First }
    }

    /// Writes one stencil pass over the current state into the scratch
    /// buffer. The current state and the marker stay as they are.
    pub fn write_pass<F: Fn(T, T, T, T, T) -> T>(&mut self, rule: &F)
        requires
            old(self).wf(),
            total(*rule),
        ensures
            final(self).wf(),
            final(self).marker() == old(self).marker(),
            final(self).current() == old(self).current(),
            advances(rule_of(*rule), old(self).current(), final(self).scratch()),
    {
        match self.latest {
            Slot::First => pass(&self.first, &mut self.second, rule),
            Slot::Second => pass(&self.second, &mut self.first, rule),
        }
    }

    /// One full step: a pass into the scratch buffer, then the exchange of
    /// roles. The former state is kept in the other buffer.
    pub fn step<F: Fn(T, T, T, T, T) -> T>(&mut self, rule: &F)
        requires
            old(self).wf(),
            total(*rule),
        ensures
            final(self).wf(),
            final(self).marker() == old(self).marker().other(),
            final(self).scratch() == old(self).current(),
            advances(rule_of(*rule), old(self).current(), final(self).current()),
    {
        self.write_pass(rule);
        self.swap();
    }
}

} // verus!
