//! Handles for the columns of the grid, and row offsets between them.

use vstd::prelude::*;

verus! {

/// What a column holds.
#[derive(Clone, Copy, Debug, PartialEq, Eq, Structural)]
pub enum ColumnKind {
    /// Values that the witness supplies.
    Advice,
}

/// A column of the grid: one cell per row.
#[derive(Clone, Copy, Debug, PartialEq, Eq, Structural)]
pub struct Column {
    /// The column's position among the columns of its kind.
    pub index: usize,
    /// What the column holds.
    pub kind: ColumnKind,
}

/// A boolean column that switches a gate on and off, row by row.
#[derive(Clone, Copy, Debug, PartialEq, Eq, Structural)]
pub struct Selector {
    /// The selector's position among the selectors.
    pub index: usize,
}

/// A row offset, relative to the row at which a gate is evaluated.
#[derive(Clone, Copy, Debug, PartialEq, Eq, Structural)]
pub struct Rotation(pub i32);

impl Rotation {
    /// The row itself.
    pub fn cur() -> (r: Rotation)
        ensures
            r.0 == 0,
    {
        Rotation(0)
    }

    /// The row before.
    pub fn prev() -> (r: Rotation)
        ensures
            r.0 == -1,
    {
        Rotation(-1)
    }

    /// The row after.
    pub fn next() -> (r: Rotation)
        ensures
            r.0 == 1,
    {
        Rotation(1)
    }
}

/// The row that lies `rotation` rows from `row` in a grid of `rows` rows,
/// which closes into a ring: the row after the last is the first.
pub open spec fn rotated(row: int, rotation: int, rows: int) -> int {
    (row + rotation) % rows
}

/// Computes [`rotated`].
pub fn rotate(row: usize, rotation: Rotation, rows: usize) -> (r: usize)
    requires
        rows > 0,
    ensures
        r == rotated(row as int, rotation.0 as int, rows as int),
        r < rows,
{
    let shifted: i128 = row as i128 + rotation.0 as i128;
    if shifted >= 0 {
        (shifted as u128 % rows as u128) as usize
    } else {
        let back: u128 = (-shifted) as u128 % rows as u128;
        proof {
            let d = rows as int;
            let q = (-shifted) as int / d;
            assert((-shifted) as int == q * d + back) by {
                vstd::arithmetic::div_mod::lemma_fundamental_div_mod((-shifted) as int, d);
                vstd::arithmetic::mul::lemma_mul_is_commutative(q, d);
            }
            if back == 0 {
                assert(shifted as int == (-q) * d + 0) by (nonlinear_arith)
                    requires
                        (-shifted) as int == q * d + back,
                        back == 0,
                ;
                vstd::arithmetic::div_mod::lemma_fundamental_div_mod_converse(
                    shifted as int,
                    d,
                    -q,
                    0,
                );
            } else {
                assert(shifted as int == (-q - 1) * d + (d - back)) by (nonlinear_arith)
                    requires
                        (-shifted) as int == q * d + back,
                ;
                vstd::arithmetic::div_mod::lemma_fundamental_div_mod_converse(
                    shifted as int,
                    d,
                    -q - 1,
                    d - back,
                );
            }
        }
        if back == 0 {
            0
        } else {
            rows - back as usize
        }
    }
}

} // verus!
