//! The ways building a matrix or a password specification can fail.

use vstd::prelude::*;

verus! {

/// A failure while parsing the matrix markup or decoding a password
/// specification. Every variant carries enough context to act as a
/// diagnostic; no entity is ever partially constructed.
#[derive(Clone, Copy, Debug, PartialEq, Eq)]
pub enum Error {
    /// A count of tabular blocks or of cell fragments differs from the
    /// exact shape the matrix requires.
    ShapeError { expected: usize, actual: usize },
    /// The text of cell `cell` of table `table` is not a single base-10
    /// digit.
    ParseError { table: usize, cell: usize },
    /// The specification string is too short to split off the fixed-width
    /// coordinate prefix.
    FormatError,
    /// The character `ch` is not a valid digit in base `radix`.
    DigitError { ch: char, radix: u8 },
    /// A decoded coordinate `value` lies outside its range `[0, max]`.
    RangeError { value: u8, max: u8 },
}

} // verus!
