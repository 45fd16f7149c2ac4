//! The grid of witness values and selector switches that a circuit fills in.

use vstd::prelude::*;
use vstd::arithmetic::power2::{lemma2_to64, lemma_pow2_strictly_increases, lemma_pow2_unfold, pow2};
use crate::columns::{Column, Selector};
use crate::error::Error;
use crate::field::Field;
use crate::value::Value;

verus! {

/// The rows that one region of a layout occupies.
#[derive(Clone, Copy, Debug)]
pub struct RegionSpan {
    /// The name the region was opened under.
    pub name: &'static str,
    /// The region's first row.
    pub start: usize,
    /// How many rows the region takes.
    pub rows: usize,
}

impl RegionSpan {
    /// The row after the region's last.
    pub open spec fn end(self) -> int {
        self.start + self.rows
    }
}

/// What an [`Assignment`] holds, as mathematics: the residue in each assigned
/// cell, the rows at which each selector is on, and the regions laid out so
/// far.
pub struct Grid {
    /// The number of rows.
    pub rows: nat,
    /// The number of advice columns.
    pub advice_columns: nat,
    /// The number of selectors.
    pub selectors: nat,
    /// The residue in every cell that holds a value. A cell that is no key
    /// here is unassigned.
    pub cells: Map<(Column, int), nat>,
    /// The selector switches that are on.
    pub enabled: Set<(Selector, int)>,
    /// The regions, in the order in which they were laid out.
    pub regions: Seq<RegionSpan>,
}

impl Grid {
    /// A grid of the given size with no cell assigned and no selector on.
    pub open spec fn blank(advice_columns: nat, selectors: nat, rows: nat) -> Grid {
        Grid {
            rows,
            advice_columns,
            selectors,
            cells: Map::empty(),
            enabled: Set::empty(),
            regions: Seq::empty(),
        }
    }

    /// Whether `column` is one of the grid's columns.
    pub open spec fn has_column(self, column: Column) -> bool {
        column.index < self.advice_columns
    }

    /// Whether `selector` is one of the grid's selectors.
    pub open spec fn has_selector(self, selector: Selector) -> bool {
        selector.index < self.selectors
    }

    /// Whether `row` is one of the grid's rows.
    pub open spec fn has_row(self, row: int) -> bool {
        0 <= row < self.rows
    }

    /// The grid has a row, and holds nothing outside its columns and rows.
    pub open spec fn well_formed(self) -> bool {
        &&& self.rows > 0
        &&& forall|key: (Column, int)| #[trigger]
            self.cells.dom().contains(key) ==> self.has_column(key.0) && self.has_row(key.1)
        &&& forall|key: (Selector, int)| #[trigger]
            self.enabled.contains(key) ==> self.has_selector(key.0) && self.has_row(key.1)
    }

    /// The residue in a cell, if the cell is assigned.
    pub open spec fn cell(self, column: Column, row: int) -> Option<nat> {
        if self.cells.dom().contains((column, row)) {
            Some(self.cells[(column, row)])
        } else {
            None
        }
    }

    /// The grid after one cell was written: with a residue, or with nothing.
    pub open spec fn with_cell(self, column: Column, row: int, value: Option<nat>) -> Grid {
        Grid {
            cells: match value {
                Some(residue) => self.cells.insert((column, row), residue),
                None => self.cells.remove((column, row)),
            },
            ..self
        }
    }

    /// The grid after one selector switch was set.
    pub open spec fn with_selector(self, selector: Selector, row: int, on: bool) -> Grid {
        Grid {
            enabled: if on {
                self.enabled.insert((selector, row))
            } else {
                self.enabled.remove((selector, row))
            },
            ..self
        }
    }

    /// The grid after one more region was recorded.
    pub open spec fn with_region(self, span: RegionSpan) -> Grid {
        Grid { regions: self.regions.push(span), ..self }
    }
}

/// A vector that holds `value` at each of `len` places.
fn filled<T: Copy>(value: T, len: usize) -> (v: Vec<T>)
    ensures
        v@.len() == len,
        forall|i: int| 0 <= i < len ==> v@[i] == value,
{
    let mut v: Vec<T> = Vec::new();
    let mut i: usize = 0;
    while i < len
        invariant
            i <= len,
            v@.len() == i,
            forall|j: int| 0 <= j < i ==> v@[j] == value,
        decreases len - i,
    {
        v.push(value);
        i += 1;
    }
    v
}

/// The number of rows `2^k`, if a `usize` can hold it.
pub fn grid_rows(k: u32) -> (r: Option<usize>)
    ensures
        r.is_some() == (pow2(k as nat) <= usize::MAX),
        r matches Some(rows) ==> rows == pow2(k as nat),
{
    let mut rows: usize = 1;
    let mut i: u32 = 0;
    proof {
        lemma2_to64();
    }
    while i < k
        invariant
            i <= k,
            rows == pow2(i as nat),
        decreases k - i,
    {
        proof {
            lemma_pow2_unfold((i + 1) as nat);
        }
        if rows > usize::MAX / 2 {
            proof {
                if i + 1 < k {
                    lemma_pow2_strictly_increases((i + 1) as nat, k as nat);
                }
            }
            return None;
        }
        rows = rows * 2;
        i += 1;
    }
    Some(rows)
}

/// The grid that a circuit's synthesis fills in: for each advice column a
/// cell per row, and for each selector a switch per row.
///
/// The grid has `2^k` rows from the start and never grows.
#[derive(Debug)]
pub struct Assignment<F: Field> {
    rows: usize,
    advice: Vec<Vec<Value<F>>>,
    selectors: Vec<Vec<bool>>,
    regions: Vec<RegionSpan>,
}

impl<F: Field> View for Assignment<F> {
    type V = Grid;

    closed spec fn view(&self) -> Grid {
        Grid {
            rows: self.rows as nat,
            advice_columns: self.advice@.len(),
            selectors: self.selectors@.len(),
            cells: Map::new(
                |key: (Column, int)|
                    key.0.index < self.advice@.len() && 0 <= key.1 < self.rows
                        && self.advice@[key.0.index as int]@[key.1]@ is Some,
                |key: (Column, int)| self.advice@[key.0.index as int]@[key.1]@->0.residue(),
            ),
            enabled: Set::new(
                |key: (Selector, int)|
                    key.0.index < self.selectors@.len() && 0 <= key.1 < self.rows
                        && self.selectors@[key.0.index as int]@[key.1],
            ),
            regions: self.regions@,
        }
    }
}

impl<F: Field> Assignment<F> {
    /// The grid has a row, and every column and every selector has one place
    /// per row.
    pub closed spec fn wf(&self) -> bool {
        &&& self.rows > 0
        &&& forall|c: int|
            0 <= c < self.advice@.len() ==> (#[trigger] self.advice@[c])@.len() == self.rows
        &&& forall|s: int|
            0 <= s < self.selectors@.len() ==> (#[trigger] self.selectors@[s])@.len() == self.rows
    }

    /// A blank grid of `2^k` rows, or `GridOverflow` where no `usize` can
    /// count that many rows.
    pub fn new(advice_columns: usize, selectors: usize, k: u32) -> (r: Result<Self, Error>)
        ensures
            match r {
                Ok(grid) => grid.wf() && pow2(k as nat) <= usize::MAX && grid@ == Grid::blank(
                    advice_columns as nat,
                    selectors as nat,
                    pow2(k as nat),
                ),
                Err(e) => pow2(k as nat) > usize::MAX && e == Error::GridOverflow,
            },
    {
        let rows = match grid_rows(k) {
            Some(rows) => rows,
            None => {
                return Err(Error::GridOverflow);
            },
        };
        proof {
            vstd::arithmetic::power2::lemma_pow2_pos(k as nat);
        }
        let mut advice: Vec<Vec<Value<F>>> = Vec::new();
        let mut c: usize = 0;
        while c < advice_columns
            invariant
                c <= advice_columns,
                advice@.len() == c,
                forall|j: int|
                    0 <= j < c ==> (#[trigger] advice@[j])@.len() == rows && forall|row: int|
                        0 <= row < rows ==> advice@[j]@[row]@ is None,
            decreases advice_columns - c,
        {
            advice.push(filled(Value::unknown(), rows));
            c += 1;
        }
        let mut switches: Vec<Vec<bool>> = Vec::new();
        let mut s: usize = 0;
        while s < selectors
            invariant
                s <= selectors,
                switches@.len() == s,
                forall|j: int|
                    0 <= j < s ==> (#[trigger] switches@[j])@.len() == rows && forall|row: int|
                        0 <= row < rows ==> !switches@[j]@[row],
            decreases selectors - s,
        {
            switches.push(filled(false, rows));
            s += 1;
        }
        let grid = Assignment { rows, advice, selectors: switches, regions: Vec::new() };
        proof {
            let blank = Grid::blank(advice_columns as nat, selectors as nat, pow2(k as nat));
            assert(grid@.cells =~= blank.cells);
            assert(grid@.enabled =~= blank.enabled);
            assert(grid@.regions =~= blank.regions);
        }
        Ok(grid)
    }

    /// The number of rows.
    pub fn rows(&self) -> (r: usize)
        requires
            self.wf(),
        ensures
            r == self@.rows,
            r > 0,
    {
        self.rows
    }

    /// The number of advice columns.
    pub fn num_advice_columns(&self) -> (r: usize)
        ensures
            r == self@.advice_columns,
    {
        self.advice.len()
    }

    /// The number of selectors.
    pub fn num_selectors(&self) -> (r: usize)
        ensures
            r == self@.selectors,
    {
        self.selectors.len()
    }

    /// The value in a cell: unknown where the cell is unassigned or lies
    /// outside the grid.
    pub fn cell(&self, column: Column, row: usize) -> (r: Value<F>)
        requires
            self.wf(),
        ensures
            r.residue() == self@.cell(column, row as int),
    {
        if column.index < self.advice.len() && row < self.rows {
            self.advice[column.index][row]
        } else {
            Value::unknown()
        }
    }

    /// Whether a selector is on at a row: off outside the grid.
    pub fn selector_enabled(&self, selector: Selector, row: usize) -> (r: bool)
        requires
            self.wf(),
        ensures
            r == self@.enabled.contains((selector, row as int)),
    {
        if selector.index < self.selectors.len() && row < self.rows {
            self.selectors[selector.index][row]
        } else {
            false
        }
    }

    /// Writes `value` into a cell, over whatever the cell held. An unknown
    /// value leaves the cell unassigned.
    ///
    /// Fails with `ColumnNotFound` where the grid has no such column, else
    /// with `GridOverflow` where it has no such row; the grid is then as it
    /// was.
    pub fn assign(&mut self, column: Column, row: usize, value: Value<F>) -> (r: Result<
        (),
        Error,
    >)
        requires
            old(self).wf(),
        ensures
            final(self).wf(),
            match r {
                Ok(()) => old(self)@.has_column(column) && old(self)@.has_row(row as int)
                    && final(self)@ == old(self)@.with_cell(column, row as int, value.residue()),
                Err(e) => *final(self) == *old(self) && e == if !old(self)@.has_column(column) {
                    Error::ColumnNotFound
                } else {
                    Error::GridOverflow
                } && !(old(self)@.has_column(column) && old(self)@.has_row(row as int)),
            },
    {
        if column.index >= self.advice.len() {
            return Err(Error::ColumnNotFound);
        }
        if row >= self.rows {
            return Err(Error::GridOverflow);
        }
        self.advice[column.index][row] = value;
        proof {
            let after = old(self)@.with_cell(column, row as int, value.residue());
            assert(self@.cells =~= after.cells);
            assert(self@.enabled =~= after.enabled);
        }
        Ok(())
    }

    /// Sets a selector switch.
    ///
    /// Fails with `ColumnNotFound` where the grid has no such selector, else
    /// with `GridOverflow` where it has no such row; the grid is then as it
    /// was.
    pub fn set_selector(&mut self, selector: Selector, row: usize, on: bool) -> (r: Result<
        (),
        Error,
    >)
        requires
            old(self).wf(),
        ensures
            final(self).wf(),
            match r {
                Ok(()) => old(self)@.has_selector(selector) && old(self)@.has_row(row as int)
                    && final(self)@ == old(self)@.with_selector(selector, row as int, on),
                Err(e) => *final(self) == *old(self) && e == if !old(self)@.has_selector(
                    selector,
                ) {
                    Error::ColumnNotFound
                } else {
                    Error::GridOverflow
                } && !(old(self)@.has_selector(selector) && old(self)@.has_row(row as int)),
            },
    {
        if selector.index >= self.selectors.len() {
            return Err(Error::ColumnNotFound);
        }
        if row >= self.rows {
            return Err(Error::GridOverflow);
        }
        self.selectors[selector.index][row] = on;
        proof {
            let after = old(self)@.with_selector(selector, row as int, on);
            assert(self@.cells =~= after.cells);
            assert(self@.enabled =~= after.enabled);
        }
        Ok(())
    }

    /// The number of regions laid out.
    pub fn num_regions(&self) -> (r: usize)
        ensures
            r == self@.regions.len(),
    {
        self.regions.len()
    }

    /// The rows of the `i`-th region, if there are that many regions.
    pub fn region(&self, i: usize) -> (r: Option<RegionSpan>)
        ensures
            r == if i < self@.regions.len() {
                Some(self@.regions[i as int])
            } else {
                None
            },
    {
        if i < self.regions.len() {
            Some(self.regions[i])
        } else {
            None
        }
    }

    /// Records one more region.
    pub(crate) fn record_region(&mut self, span: RegionSpan)
        requires
            old(self).wf(),
        ensures
            final(self).wf(),
            final(self)@ == old(self)@.with_region(span),
    {
        self.regions.push(span);
        proof {
            let after = old(self)@.with_region(span);
            assert(self@.cells =~= after.cells);
            assert(self@.enabled =~= after.enabled);
        }
    }
}

} // verus!
