//! An edit script: an ordered list of operations plus the length of
//! the longer of the two strings it was computed from.

use vstd::prelude::*;

use crate::ops::StringDiffOp;
use crate::ops::StringDiffOpKind;

verus! {

/// The character's code with an ASCII upper-case letter folded to its
/// lower-case counterpart; other characters are untouched.
pub open spec fn ascii_lower_code(c: char) -> u32 {
    if 65 <= c as u32 <= 90 {
        (c as u32 + 32) as u32
    } else {
        c as u32
    }
}

/// Whether two characters match once ASCII case is ignored.
pub open spec fn ascii_case_eq(x: char, y: char) -> bool {
    ascii_lower_code(x) == ascii_lower_code(y)
}

/// How many operations of the script are insertions or deletions.
pub open spec fn count_indels(ops: Seq<StringDiffOp>) -> nat
    decreases ops.len(),
{
    if ops.len() == 0 {
        0
    } else {
        count_indels(ops.drop_last()) + (match ops.last().kind {
            StringDiffOpKind::Insert(_) => 1nat,
            StringDiffOpKind::Delete => 1nat,
            _ => 0nat,
        })
    }
}

/// How many operations are substitutions whose two characters match
/// ignoring ASCII case.
pub open spec fn count_case_subs(ops: Seq<StringDiffOp>) -> nat
    decreases ops.len(),
{
    if ops.len() == 0 {
        0
    } else {
        count_case_subs(ops.drop_last()) + (match ops.last().kind {
            StringDiffOpKind::Substitute(x, y) => if ascii_case_eq(x, y) {
                1nat
            } else {
                0nat
            },
            _ => 0nat,
        })
    }
}

/// How many operations are substitutions whose two characters differ
/// even ignoring ASCII case.
pub open spec fn count_other_subs(ops: Seq<StringDiffOp>) -> nat
    decreases ops.len(),
{
    if ops.len() == 0 {
        0
    } else {
        count_other_subs(ops.drop_last()) + (match ops.last().kind {
            StringDiffOpKind::Substitute(x, y) => if ascii_case_eq(x, y) {
                0nat
            } else {
                1nat
            },
            _ => 0nat,
        })
    }
}

/// How many operations of the script are transpositions.
pub open spec fn count_transposes(ops: Seq<StringDiffOp>) -> nat
    decreases ops.len(),
{
    if ops.len() == 0 {
        0
    } else {
        count_transposes(ops.drop_last()) + (match ops.last().kind {
            StringDiffOpKind::Transpose => 1nat,
            _ => 0nat,
        })
    }
}

/// How many operations of each scoring category an edit script holds.
/// A scorer charges each category its configured cost; a substitution
/// whose characters match ignoring ASCII case is charged the cheaper
/// lower-case cost.
#[derive(PartialEq, Eq, Debug, Clone, Copy)]
pub struct OpTally {
    pub indels: usize,
    pub case_subs: usize,
    pub other_subs: usize,
    pub transposes: usize,
}

#[derive(Debug, PartialEq, Eq)]
pub struct Diff {
    pub ops: Vec<StringDiffOp>,
    pub total_len: usize,
}

impl Diff {
    pub fn new(diffs: Vec<StringDiffOp>, total_len: usize) -> (r: Self)
        ensures
            r.ops == diffs,
            r.total_len == total_len,
    {
        Self { ops: diffs, total_len }
    }

    /// The number of operations in the script.
    pub fn distance(&self) -> (r: usize)
        ensures
            r == self.ops@.len(),
    {
        self.ops.len()
    }

    /// Counts the script's operations by scoring category.
    pub fn op_tally(&self) -> (r: OpTally)
        ensures
            r.indels == count_indels(self.ops@),
            r.case_subs == count_case_subs(self.ops@),
            r.other_subs == count_other_subs(self.ops@),
            r.transposes == count_transposes(self.ops@),
    {
        let mut indels: usize = 0;
        let mut case_subs: usize = 0;
        let mut other_subs: usize = 0;
        let mut transposes: usize = 0;
        let mut k: usize = 0;
        let len = self.ops.len();
        proof {
            assert(self.ops@.take(0) =~= Seq::<StringDiffOp>::empty());
        }
        while k < len
            invariant
                k <= len,
                len == self.ops@.len(),
                indels == count_indels(self.ops@.take(k as int)),
                case_subs == count_case_subs(self.ops@.take(k as int)),
                other_subs == count_other_subs(self.ops@.take(k as int)),
                transposes == count_transposes(self.ops@.take(k as int)),
                indels + case_subs + other_subs + transposes <= k,
            decreases len - k,
        {
            proof {
                assert(self.ops@.take(k + 1).drop_last() =~= self.ops@.take(k as int));
                assert(self.ops@.take(k + 1).last() == self.ops@[k as int]);
            }
            match self.ops[k].kind {
                StringDiffOpKind::Delete => {
                    indels = indels + 1;
                },
                StringDiffOpKind::Insert(_c) => {
                    indels = indels + 1;
                },
                StringDiffOpKind::Substitute(x, y) => {
                    if chars_ascii_case_eq(x, y) {
                        case_subs = case_subs + 1;
                    } else {
                        other_subs = other_subs + 1;
                    }
                },
                StringDiffOpKind::Transpose => {
                    transposes = transposes + 1;
                },
            }
            k = k + 1;
        }
        proof {
            assert(self.ops@.take(len as int) =~= self.ops@);
        }
        OpTally { indels, case_subs, other_subs, transposes }
    }
}

/// Whether two characters match once ASCII case is ignored, as the
/// scorer's cheaper lower-case substitution asks.
pub fn chars_ascii_case_eq(x: char, y: char) -> (r: bool)
    ensures
        r == ascii_case_eq(x, y),
{
    let cx = x as u32;
    let cy = y as u32;
    let lx = if 65 <= cx && cx <= 90 {
        cx + 32
    } else {
        cx
    };
    let ly = if 65 <= cy && cy <= 90 {
        cy + 32
    } else {
        cy
    };
    lx == ly
}

} // verus!
