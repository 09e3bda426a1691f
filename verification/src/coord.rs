//! Coordinate pairs: one lookup key into the matrix.

use vstd::prelude::*;
use crate::error::Error;

verus! {

/// One lookup key into the matrix: a table index in `[0, 2]` and a cell
/// position in `[0, 15]`. `new` range-checks both fields, so a pair built
/// through it is always well-formed.
#[derive(Clone, Copy, Debug, PartialEq, Eq, Structural)]
pub struct MatrixPosition {
    pub table: u8,
    pub position: u8,
}

impl MatrixPosition {
    /// Both fields lie in their ranges.
    pub open spec fn wf(self) -> bool {
        self.table < 3 && self.position < 16
    }

    /// Builds a coordinate pair, rejecting out-of-range values.
    pub fn new(table: u8, position: u8) -> (r: Result<MatrixPosition, Error>)
        ensures
            match r {
                Ok(p) => table < 3 && position < 16 && p.table == table && p.position == position
                    && p.wf(),
                Err(e) => match e {
                    Error::RangeError { value, max } => (table >= 3 && value == table && max == 2)
                        || (table < 3 && position >= 16 && value == position && max == 15),
                    _ => false,
                },
            },
    {
        if table >= 3 {
            Err(Error::RangeError { value: table, max: 2 })
        } else if position >= 16 {
            Err(Error::RangeError { value: position, max: 15 })
        } else {
            Ok(MatrixPosition { table, position })
        }
    }
}

} // verus!
