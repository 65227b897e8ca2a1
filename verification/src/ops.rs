//! Edit operations and the errors the library reports.

use vstd::prelude::*;

verus! {

/// One kind of edit operation. A `Substitute` records the character
/// replaced and its replacement; an `Insert` records the character
/// inserted. `Transpose` is represented but unsupported: replaying a
/// script that contains it fails.
#[derive(PartialEq, Eq, Debug, Clone, Copy)]
pub enum StringDiffOpKind {
    Substitute(char, char),
    Insert(char),
    Delete,
    Transpose,
}

/// An edit operation together with the 0-based index at which it
/// applies. The index refers to the string as progressively mutated by
/// the preceding operations of its script, not to the original string.
#[derive(PartialEq, Eq, Debug, Clone, Copy)]
pub struct StringDiffOp {
    pub kind: StringDiffOpKind,
    pub index: usize,
}

impl StringDiffOp {
    pub fn new(kind: StringDiffOpKind, index: usize) -> (r: Self)
        ensures
            r == (StringDiffOp { kind, index }),
    {
        Self { kind, index }
    }

    pub fn new_delete(index: usize) -> (r: Self)
        ensures
            r == (StringDiffOp { kind: StringDiffOpKind::Delete, index }),
    {
        Self::new(StringDiffOpKind::Delete, index)
    }

    pub fn new_insert(c: char, index: usize) -> (r: Self)
        ensures
            r == (StringDiffOp { kind: StringDiffOpKind::Insert(c), index }),
    {
        Self::new(StringDiffOpKind::Insert(c), index)
    }

    pub fn new_substitute(b: char, c: char, index: usize) -> (r: Self)
        ensures
            r == (StringDiffOp { kind: StringDiffOpKind::Substitute(b, c), index }),
    {
        Self::new(StringDiffOpKind::Substitute(b, c), index)
    }
}

/// The substitution operation as a spec-level value.
pub open spec fn spec_sub_op(from: char, to: char, index: usize) -> StringDiffOp {
    StringDiffOp { kind: StringDiffOpKind::Substitute(from, to), index }
}

/// The insertion operation as a spec-level value.
pub open spec fn spec_insert_op(c: char, index: usize) -> StringDiffOp {
    StringDiffOp { kind: StringDiffOpKind::Insert(c), index }
}

/// The deletion operation as a spec-level value.
pub open spec fn spec_delete_op(index: usize) -> StringDiffOp {
    StringDiffOp { kind: StringDiffOpKind::Delete, index }
}

/// The errors this library reports to its callers.
#[derive(PartialEq, Eq, Debug, Clone, Copy)]
pub enum DiffError {
    /// Hamming distance requires equal-length inputs.
    LengthMismatch,
    /// Replaying a script met a `Transpose` operation, which is
    /// unsupported.
    UnsupportedOperation,
}

} // verus!
