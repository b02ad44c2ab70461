//! Where the node that follows another one stands in the source.
use vstd::prelude::*;

verus! {

/// Greatest row a position can hold: offsets past it collapse to it.
pub const ROW_CAP: u32 = 100;

/// Row of the node that follows one at `row` once `len` more characters are consumed.
pub open spec fn next_row_of(row: int, len: int) -> int {
    if row + len < ROW_CAP {
        row + len
    } else {
        ROW_CAP as int
    }
}

/// Column of the node that follows one at (`column`, `row`) once `len` more characters are
/// consumed: a new line starts only where the next row would be the start of one.
pub open spec fn next_column_of(column: int, row: int, len: int) -> int {
    if column > 0 && next_row_of(row, len) == 0 {
        column + 1
    } else {
        column
    }
}

/// Computes `next_row_of` on machine integers.
pub fn next_row(row: u32, len: usize) -> (r: u32)
    ensures
        r == next_row_of(row as int, len as int),
{
    if row >= ROW_CAP || len >= ROW_CAP as usize {
        ROW_CAP
    } else {
        let sum = row + len as u32;
        if sum < ROW_CAP {
            sum
        } else {
            ROW_CAP
        }
    }
}

/// Computes `next_column_of` on machine integers.
pub fn next_column(column: u32, row: u32, len: usize) -> (r: u32)
    requires
        next_column_of(column as int, row as int, len as int) <= u32::MAX,
    ensures
        r == next_column_of(column as int, row as int, len as int),
{
    if column > 0 && next_row(row, len) == 0 {
        column + 1
    } else {
        column
    }
}

} // verus!
