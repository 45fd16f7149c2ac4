//! What can go wrong while a circuit is laid out or checked.

use vstd::prelude::*;

verus! {

/// The ways in which a circuit or its assignment can be at fault.
#[derive(Clone, Copy, Debug, PartialEq, Eq, Structural)]
pub enum Error {
    /// A column or selector handle that the circuit's registry never handed
    /// out.
    ColumnNotFound,
    /// An active gate reads a cell that holds no value.
    CellNotAssigned,
    /// A constraint of an active gate does not evaluate to zero.
    ConstraintViolated,
    /// A row beyond the last row of the grid.
    GridOverflow,
}

impl Error {
    /// A sentence that says what went wrong.
    pub fn describe(&self) -> (r: &'static str)
        ensures
            r@ == match *self {
                Error::ColumnNotFound => "column or selector does not belong to this circuit"@,
                Error::CellNotAssigned => "an active gate reads a cell that was never assigned"@,
                Error::ConstraintViolated => "a constraint of an active gate is not satisfied"@,
                Error::GridOverflow => "row lies beyond the end of the grid"@,
            },
    {
        match self {
            Error::ColumnNotFound => "column or selector does not belong to this circuit",
            Error::CellNotAssigned => "an active gate reads a cell that was never assigned",
            Error::ConstraintViolated => "a constraint of an active gate is not satisfied",
            Error::GridOverflow => "row lies beyond the end of the grid",
        }
    }
}

} // verus!
