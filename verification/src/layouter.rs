//! Laying a circuit out: region after region, each on rows of its own.

use vstd::prelude::*;
use vstd::arithmetic::power2::pow2;
use crate::assignment::{Assignment, Grid, RegionSpan};
use crate::columns::{Column, Selector};
use crate::constraint_system::ConstraintSystem;
use crate::error::Error;
use crate::field::Field;
use crate::value::Value;

verus! {

impl Grid {
    /// The row after the last region, which is the first row where there is
    /// no region yet.
    pub open spec fn regions_end(self) -> int {
        if self.regions.len() == 0 {
            0
        } else {
            self.regions.last().end()
        }
    }

    /// Each region starts where the one before it ends, the first at row 0.
    pub open spec fn consecutive(self) -> bool {
        &&& self.regions.len() > 0 ==> self.regions[0].start == 0
        &&& forall|i: int, j: int|
            0 <= i && j == i + 1 && j < self.regions.len() ==> (#[trigger] self.regions[j]).start
                == (#[trigger] self.regions[i]).end()
    }

    /// No cell is assigned and no selector is on at row `bound` or beyond.
    pub open spec fn used_below(self, bound: int) -> bool {
        &&& forall|key: (Column, int)| #[trigger] self.cells.dom().contains(key) ==> key.1 < bound
        &&& forall|key: (Selector, int)| #[trigger] self.enabled.contains(key) ==> key.1 < bound
    }

    /// The state of a layout whose regions fill the rows before `next_row`,
    /// with a region open on the `height` rows from there.
    pub open spec fn laid_out(self, next_row: int, height: int) -> bool {
        &&& self.well_formed()
        &&& self.consecutive()
        &&& self.regions_end() == next_row
        &&& 0 <= height
        &&& next_row + height <= self.rows
        &&& self.used_below(next_row + height)
    }
}

/// Regions never share a row: of two regions of a layout, the earlier one
/// ends before the later one starts.
pub proof fn lemma_regions_disjoint(grid: Grid, i: int, j: int)
    requires
        grid.consecutive(),
        0 <= i < j < grid.regions.len(),
    ensures
        grid.regions[i].end() <= grid.regions[j].start,
    decreases j - i,
{
    if i + 1 < j {
        lemma_regions_disjoint(grid, i, j - 1);
    }
    assert(grid.regions[j].start == grid.regions[j - 1].end());
}

/// Every region lies before the row at which the next one will start.
pub proof fn lemma_regions_before_end(grid: Grid, i: int)
    requires
        grid.consecutive(),
        0 <= i < grid.regions.len(),
    ensures
        grid.regions[i].end() <= grid.regions_end(),
{
    let last = grid.regions.len() - 1;
    if i < last {
        lemma_regions_disjoint(grid, i, last);
    }
}

/// A cell that a region has written.
#[derive(Clone, Copy, Debug)]
pub struct AssignedCell<F: Field> {
    /// The cell's column.
    pub column: Column,
    /// The cell's row in the grid.
    pub row: usize,
    /// What was written.
    pub value: Value<F>,
}

/// Places the regions of a circuit in the grid, one after the other.
#[derive(Debug)]
pub struct Layouter<F: Field> {
    grid: Assignment<F>,
    next_row: usize,
}

/// A block of rows that is being filled in. Rows are counted from the
/// region's first row; the region grows to hold the last row written.
#[derive(Debug)]
pub struct Region<F: Field> {
    grid: Assignment<F>,
    name: &'static str,
    start: usize,
    height: usize,
}

impl<F: Field> Layouter<F> {
    /// What has been laid out so far.
    pub closed spec fn grid(&self) -> Grid {
        self.grid@
    }

    /// The first row that no region has taken.
    pub closed spec fn next_row(&self) -> nat {
        self.next_row as nat
    }

    /// The regions lie one after the other before the next free row, and
    /// nothing is written beyond them.
    pub closed spec fn wf(&self) -> bool {
        &&& self.grid.wf()
        &&& self.grid@.laid_out(self.next_row as int, 0)
    }

    /// A layouter over a blank grid of `2^k` rows, with the columns and
    /// selectors of `system`; or `GridOverflow` where no `usize` can count
    /// that many rows.
    pub fn new(system: &ConstraintSystem<F>, k: u32) -> (r: Result<Self, Error>)
        ensures
            match r {
                Ok(layouter) => layouter.wf() && pow2(k as nat) <= usize::MAX
                    && layouter.next_row() == 0 && layouter.grid() == Grid::blank(
                    system@.advice_columns,
                    system@.selectors,
                    pow2(k as nat),
                ),
                Err(e) => pow2(k as nat) > usize::MAX && e == Error::GridOverflow,
            },
    {
        match Assignment::new(system.num_advice_columns(), system.num_selectors(), k) {
            Ok(grid) => {
                proof {
                    vstd::arithmetic::power2::lemma_pow2_pos(k as nat);
                }
                Ok(Layouter { grid, next_row: 0 })
            },
            Err(e) => Err(e),
        }
    }

    /// Opens a region on the first free row. The region holds the layout
    /// until [`Region::finish`] hands it back.
    pub fn assign_region(self, name: &'static str) -> (r: Region<F>)
        requires
            self.wf(),
        ensures
            r.wf(),
            r.grid() == self.grid(),
            r.name() == name,
            r.start() == self.next_row(),
            r.height() == 0,
    {
        Region { grid: self.grid, name, start: self.next_row, height: 0 }
    }

    /// The grid as laid out so far: its regions lie one after the other on
    /// the rows before the next free row, and nothing is written beyond them.
    pub fn assignment(&self) -> (r: &Assignment<F>)
        requires
            self.wf(),
        ensures
            r.wf(),
            r@ == self.grid(),
            r@.laid_out(self.next_row() as int, 0),
    {
        &self.grid
    }

    /// Ends the layout and hands the grid out: its regions lie one after the
    /// other on the rows before the next free row, and nothing is written
    /// beyond them.
    pub fn into_assignment(self) -> (r: Assignment<F>)
        requires
            self.wf(),
        ensures
            r.wf(),
            r@ == self.grid(),
            r@.laid_out(self.next_row() as int, 0),
    {
        self.grid
    }
}

impl<F: Field> Region<F> {
    /// The layout, with what the region has written so far.
    pub closed spec fn grid(&self) -> Grid {
        self.grid@
    }

    /// The name the region was opened under.
    pub closed spec fn name(&self) -> &'static str {
        self.name
    }

    /// The region's first row in the grid.
    pub closed spec fn start(&self) -> nat {
        self.start as nat
    }

    /// The number of rows the region has grown to.
    pub closed spec fn height(&self) -> nat {
        self.height as nat
    }

    /// The earlier regions end where this one starts, and nothing is written
    /// beyond its last row.
    pub closed spec fn wf(&self) -> bool {
        &&& self.grid.wf()
        &&& self.grid@.laid_out(self.start as int, self.height as int)
    }

    /// The height of a region after a write to `relative_row`.
    pub open spec fn grown(height: nat, relative_row: int) -> nat {
        if relative_row + 1 > height {
            (relative_row + 1) as nat
        } else {
            height
        }
    }

    /// Switches `selector` on at the region's row `relative_row`.
    ///
    /// Fails with `ColumnNotFound` where the circuit has no such selector,
    /// else with `GridOverflow` where the row lies beyond the grid; the
    /// region is then as it was.
    pub fn enable_selector(&mut self, selector: Selector, relative_row: usize) -> (r: Result<
        (),
        Error,
    >)
        requires
            old(self).wf(),
        ensures
            final(self).wf(),
            final(self).name() == old(self).name(),
            final(self).start() == old(self).start(),
            match r {
                Ok(()) => {
                    &&& old(self).grid().has_selector(selector)
                    &&& old(self).start() + relative_row < old(self).grid().rows
                    &&& final(self).grid() == old(self).grid().with_selector(
                        selector,
                        old(self).start() + relative_row,
                        true,
                    )
                    &&& final(self).height() == Self::grown(
                        old(self).height(),
                        relative_row as int,
                    )
                },
                Err(e) => {
                    &&& *final(self) == *old(self)
                    &&& e == if !old(self).grid().has_selector(selector) {
                        Error::ColumnNotFound
                    } else {
                        Error::GridOverflow
                    }
                    &&& !(old(self).grid().has_selector(selector) && old(self).start()
                        + relative_row < old(self).grid().rows)
                },
            },
    {
        if selector.index >= self.grid.num_selectors() {
            return Err(Error::ColumnNotFound);
        }
        if relative_row >= self.grid.rows() - self.start {
            return Err(Error::GridOverflow);
        }
        let row = self.start + relative_row;
        match self.grid.set_selector(selector, row, true) {
            Ok(()) => {
                if relative_row + 1 > self.height {
                    self.height = relative_row + 1;
                }
                Ok(())
            },
            Err(e) => Err(e),
        }
    }

    /// Writes `value` into `column` at the region's row `relative_row`. An
    /// unknown value leaves the cell unassigned.
    ///
    /// Fails with `ColumnNotFound` where the circuit has no such column, else
    /// with `GridOverflow` where the row lies beyond the grid; the region is
    /// then as it was.
    pub fn assign_advice(&mut self, column: Column, relative_row: usize, value: Value<F>) -> (r:
        Result<AssignedCell<F>, Error>)
        requires
            old(self).wf(),
        ensures
            final(self).wf(),
            final(self).name() == old(self).name(),
            final(self).start() == old(self).start(),
            match r {
                Ok(cell) => {
                    &&& old(self).grid().has_column(column)
                    &&& old(self).start() + relative_row < old(self).grid().rows
                    &&& final(self).grid() == old(self).grid().with_cell(
                        column,
                        old(self).start() + relative_row,
                        value.residue(),
                    )
                    &&& final(self).height() == Self::grown(
                        old(self).height(),
                        relative_row as int,
                    )
                    &&& cell.column == column
                    &&& cell.row == old(self).start() + relative_row
                    &&& cell.value == value
                },
                Err(e) => {
                    &&& *final(self) == *old(self)
                    &&& e == if !old(self).grid().has_column(column) {
                        Error::ColumnNotFound
                    } else {
                        Error::GridOverflow
                    }
                    &&& !(old(self).grid().has_column(column) && old(self).start() + relative_row
                        < old(self).grid().rows)
                },
            },
    {
        if column.index >= self.grid.num_advice_columns() {
            return Err(Error::ColumnNotFound);
        }
        if relative_row >= self.grid.rows() - self.start {
            return Err(Error::GridOverflow);
        }
        let row = self.start + relative_row;
        match self.grid.assign(column, row, value) {
            Ok(()) => {
                if relative_row + 1 > self.height {
                    self.height = relative_row + 1;
                }
                Ok(AssignedCell { column, row, value })
            },
            Err(e) => Err(e),
        }
    }

    /// Closes the region: records the rows it took and hands the layout
    /// back, with the next region to start on the row after them.
    pub fn finish(self) -> (r: Layouter<F>)
        requires
            self.wf(),
        ensures
            r.wf(),
            r.next_row() == self.start() + self.height(),
            r.grid() == self.grid().with_region(
                RegionSpan {
                    name: self.name(),
                    start: self.start() as usize,
                    rows: self.height() as usize,
                },
            ),
    {
        let span = RegionSpan { name: self.name, start: self.start, rows: self.height };
        let mut grid = self.grid;
        grid.record_region(span);
        let rows = grid.rows();
        proof {
            let before = self.grid@;
            let after = grid@;
            assert forall|i: int, j: int|
                0 <= i && j == i + 1 && j < after.regions.len() implies (#[trigger] after.regions[j]).start
                == (#[trigger] after.regions[i]).end() by {
                assert(after.regions[i] == before.regions[i]);
                if j < before.regions.len() {
                    assert(after.regions[j] == before.regions[j]);
                }
            }
            if before.regions.len() > 0 {
                assert(after.regions[0] == before.regions[0]);
            }
        }
        Layouter { grid, next_row: self.start + self.height }
    }
}

} // verus!
