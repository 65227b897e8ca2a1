//! The direction matrix shared by the dynamic-programming builders.

use vstd::prelude::*;

verus! {

/// Which predecessor cell produced the optimal value at a cell of the
/// dynamic-programming matrix. `Up` consumes a character of the left
/// (row) string, `Left` a character of the top (column) string, and
/// `Diagonal` one of each.
#[derive(PartialEq, Eq, Debug, Clone, Copy)]
pub enum Direction {
    Up,
    Left,
    Diagonal,
}

/// A direction matrix of `rows + 1` by `cols + 1` cells with the fixed
/// boundary: row 0 is `Left`, column 0 is `Up`, and the origin holds
/// the `Diagonal` sentinel, which the backtrace never reads as an
/// operation.
pub open spec fn dir_matrix_wf(m: Seq<Vec<Direction>>, rows: int, cols: int) -> bool {
    &&& m.len() == rows + 1
    &&& (forall|i: int| 0 <= i <= rows ==> (#[trigger] m[i])@.len() == cols + 1)
    &&& m[0]@[0] == Direction::Diagonal
    &&& (forall|i: int| 1 <= i <= rows ==> (#[trigger] m[i])@[0] == Direction::Up)
    &&& (forall|j: int| 1 <= j <= cols ==> #[trigger] m[0]@[j] == Direction::Left)
}

} // verus!
