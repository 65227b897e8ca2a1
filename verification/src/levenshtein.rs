//! Levenshtein distance with full edit-script recovery.
//!
//! The dynamic-programming matrix is built row by row; in lock-step a
//! direction matrix records which predecessor produced each cell's
//! optimal value. The backtrace walks the direction matrix from the
//! far corner back to the origin and emits the edit script in
//! source-index order, renumbering each maximal run of insertions once
//! it is left.
//!
//! Tie-break rule, part of the contract: the minimum-cost selection
//! checks up, then left, then diagonal, each winning a tie against the
//! later ones; the diagonal is chosen only when it is strictly
//! cheaper than both.

use vstd::prelude::*;

use crate::StringDiffAlgorithm;
use crate::chars::to_char_vec;
use crate::diff::Diff;
use crate::direction::Direction;
use crate::direction::dir_matrix_wf;
use crate::ops::StringDiffOp;

verus! {

/// The minimum of three values.
pub open spec fn min3(x: nat, y: nat, z: nat) -> nat {
    if x <= y && x <= z {
        x
    } else if y <= z {
        y
    } else {
        z
    }
}

/// The diagonal cost of aligning two characters: free for a match,
/// one edit for a substitution.
pub open spec fn sub_cost(x: char, y: char) -> nat {
    if x == y {
        0
    } else {
        1
    }
}

/// The classic Levenshtein edit distance: the least number of
/// insertions, deletions and substitutions turning `a` into `b`.
pub open spec fn lev(a: Seq<char>, b: Seq<char>) -> nat
    decreases a.len() + b.len(),
{
    if a.len() == 0 {
        b.len()
    } else if b.len() == 0 {
        a.len()
    } else {
        min3(
            lev(a, b.drop_last()) + 1,
            lev(a.drop_last(), b) + 1,
            lev(a.drop_last(), b.drop_last()) + sub_cost(a.last(), b.last()),
        )
    }
}

/// The edit distance never exceeds the two lengths together.
proof fn lemma_lev_bound(a: Seq<char>, b: Seq<char>)
    ensures
        lev(a, b) <= a.len() + b.len(),
    decreases a.len() + b.len(),
{
    if a.len() == 0 {
    } else if b.len() == 0 {
    } else {
        lemma_lev_bound(a, b.drop_last());
        lemma_lev_bound(a.drop_last(), b);
        lemma_lev_bound(a.drop_last(), b.drop_last());
    }
}

/// Aligning a prefix of `a` against the empty prefix of `b` costs the
/// prefix's length, and symmetrically.
pub proof fn lemma_lev_base(a: Seq<char>, b: Seq<char>, i: int, j: int)
    requires
        0 <= j <= a.len(),
        0 <= i <= b.len(),
    ensures
        lev(a.take(j), b.take(0)) == j,
        lev(a.take(0), b.take(i)) == i,
{
    assert(a.take(0) =~= Seq::<char>::empty());
    assert(b.take(0) =~= Seq::<char>::empty());
    assert(a.take(j).len() == j);
    assert(b.take(i).len() == i);
}

/// The recurrence over prefixes: an interior cell is the minimum over
/// its up, left and diagonal predecessors.
proof fn lemma_lev_step(a: Seq<char>, b: Seq<char>, i: int, j: int)
    requires
        1 <= j <= a.len(),
        1 <= i <= b.len(),
    ensures
        lev(a.take(j), b.take(i)) == min3(
            lev(a.take(j), b.take(i - 1)) + 1,
            lev(a.take(j - 1), b.take(i)) + 1,
            lev(a.take(j - 1), b.take(i - 1)) + sub_cost(a[j - 1], b[i - 1]),
        ),
{
    let x = a.take(j);
    let y = b.take(i);
    assert(x.len() == j);
    assert(y.len() == i);
    assert(x.drop_last() =~= a.take(j - 1));
    assert(y.drop_last() =~= b.take(i - 1));
    assert(x.last() == a[j - 1]);
    assert(y.last() == b[i - 1]);
}

/// What a recorded direction promises about the cell's cost relative
/// to the predecessor it points at.
pub open spec fn lev_dir_ok(a: Seq<char>, b: Seq<char>, i: int, j: int, d: Direction) -> bool {
    match d {
        Direction::Up => lev(a.take(j), b.take(i)) == lev(a.take(j), b.take(i - 1)) + 1,
        Direction::Left => lev(a.take(j), b.take(i)) == lev(a.take(j - 1), b.take(i)) + 1,
        Direction::Diagonal => lev(a.take(j), b.take(i)) == lev(a.take(j - 1), b.take(i - 1))
            + sub_cost(a[j - 1], b[i - 1]),
    }
}

/// Every interior cell's direction is cost-consistent.
pub open spec fn lev_dirs_ok(m: Seq<Vec<Direction>>, a: Seq<char>, b: Seq<char>) -> bool {
    forall|i: int, j: int|
        1 <= i <= b.len() && 1 <= j <= a.len() ==> lev_dir_ok(a, b, i, j, #[trigger] m[i]@[j])
}

/// Chooses the minimum of the three neighbouring costs and the
/// direction it came from: up wins ties, then left; the diagonal is
/// chosen only when strictly below both.
pub fn min_dist_with_dir(x: usize, y: usize, z: usize) -> (r: (usize, Direction))
    ensures
        r.0 == min3(x as nat, y as nat, z as nat),
        r.1 == Direction::Up ==> r.0 == x,
        r.1 == Direction::Left ==> r.0 == y,
        r.1 == Direction::Diagonal ==> r.0 == z,
        r.1 == (if x <= y && x <= z {
            Direction::Up
        } else if y <= z {
            Direction::Left
        } else {
            Direction::Diagonal
        }),
{
    if x <= y && x <= z {
        (x, Direction::Up)
    } else if y <= x && y <= z {
        (y, Direction::Left)
    } else {
        (z, Direction::Diagonal)
    }
}

/// One row of the cost matrix holds the distances of every prefix of
/// `a` against the first `i` characters of `b`.
spec fn lev_row_ok(row: Seq<usize>, a: Seq<char>, b: Seq<char>, i: int) -> bool {
    &&& row.len() == a.len() + 1
    &&& (forall|j: int| 0 <= j <= a.len() ==> #[trigger] row[j] == lev(a.take(j), b.take(i)))
}

/// Builds the direction matrix of the Levenshtein recurrence for the
/// top string `a` (columns) and left string `b` (rows).
#[verifier::loop_isolation(false)]
pub fn get_operation_matrix(a: &Vec<char>, b: &Vec<char>) -> (dirs: Vec<Vec<Direction>>)
    requires
        a@.len() + b@.len() < usize::MAX,
    ensures
        dir_matrix_wf(dirs@, b@.len() as int, a@.len() as int),
        lev_dirs_ok(dirs@, a@, b@),
{
    let n = a.len();
    let m = b.len();
    let mut dist: Vec<Vec<usize>> = Vec::new();
    let mut dirs: Vec<Vec<Direction>> = Vec::new();

    let mut drow: Vec<usize> = Vec::new();
    let mut rrow: Vec<Direction> = Vec::new();
    drow.push(0);
    rrow.push(Direction::Diagonal);
    let mut j: usize = 1;
    proof {
        lemma_lev_base(a@, b@, 0, 0);
    }
    while j <= n
        invariant
            1 <= j <= n + 1,
            drow@.len() == j,
            rrow@.len() == j,
            forall|jj: int| 0 <= jj < j ==> #[trigger] drow@[jj] == lev(a@.take(jj), b@.take(0)),
            rrow@[0] == Direction::Diagonal,
            forall|jj: int| 1 <= jj < j ==> #[trigger] rrow@[jj] == Direction::Left,
        decreases n + 1 - j,
    {
        proof {
            lemma_lev_base(a@, b@, 0, j as int);
        }
        drow.push(j);
        rrow.push(Direction::Left);
        j = j + 1;
    }
    dist.push(drow);
    dirs.push(rrow);

    let mut i: usize = 1;
    while i <= m
        invariant
            1 <= i <= m + 1,
            dist@.len() == i,
            dirs@.len() == i,
            forall|r: int| 0 <= r < i ==> lev_row_ok((#[trigger] dist@[r])@, a@, b@, r),
            forall|r: int| 0 <= r < i ==> (#[trigger] dirs@[r])@.len() == n + 1,
            dirs@[0]@[0] == Direction::Diagonal,
            forall|jj: int| 1 <= jj <= n ==> #[trigger] dirs@[0]@[jj] == Direction::Left,
            forall|r: int| 1 <= r < i ==> (#[trigger] dirs@[r])@[0] == Direction::Up,
            forall|r: int, jj: int|
                1 <= r < i && 1 <= jj <= n ==> lev_dir_ok(a@, b@, r, jj, #[trigger] dirs@[r]@[jj]),
        decreases m + 1 - i,
    {
        let mut drow: Vec<usize> = Vec::new();
        let mut rrow: Vec<Direction> = Vec::new();
        drow.push(i);
        rrow.push(Direction::Up);
        proof {
            lemma_lev_base(a@, b@, i as int, 0);
        }
        let mut j: usize = 1;
        while j <= n
            invariant
                1 <= j <= n + 1,
                drow@.len() == j,
                rrow@.len() == j,
                dist@.len() == i,
                forall|r: int| 0 <= r < i ==> lev_row_ok((#[trigger] dist@[r])@, a@, b@, r),
                forall|jj: int| 0 <= jj < j ==> #[trigger] drow@[jj] == lev(
                    a@.take(jj),
                    b@.take(i as int),
                ),
                rrow@[0] == Direction::Up,
                forall|jj: int|
                    1 <= jj < j ==> lev_dir_ok(a@, b@, i as int, jj, #[trigger] rrow@[jj]),
            decreases n + 1 - j,
        {
            let sub_c: usize = if a[j - 1] == b[i - 1] {
                0
            } else {
                1
            };
            proof {
                lemma_lev_bound(a@.take(j as int), b@.take(i - 1));
                lemma_lev_bound(a@.take(j - 1), b@.take(i as int));
                lemma_lev_bound(a@.take(j - 1), b@.take(i - 1));
                lemma_lev_step(a@, b@, i as int, j as int);
            }
            let up = dist[i - 1][j] + 1;
            let left = drow[j - 1] + 1;
            let diag = dist[i - 1][j - 1] + sub_c;
            let (val, d) = min_dist_with_dir(up, left, diag);
            drow.push(val);
            rrow.push(d);
            j = j + 1;
        }
        dist.push(drow);
        dirs.push(rrow);
        i = i + 1;
    }
    dirs
}

/// The Levenshtein algorithm as a [`StringDiffAlgorithm`]. Its edit
/// scripts replay their first argument into their second and have
/// minimal length.
pub struct LevenshteinDistance {}

impl StringDiffAlgorithm for LevenshteinDistance {
    open spec fn valid_input(s1: Seq<char>, s2: Seq<char>) -> bool {
        s1.len() + s2.len() < usize::MAX
    }

    open spec fn ops_ok(s1: Seq<char>, s2: Seq<char>, ops: Seq<StringDiffOp>) -> bool {
        &&& crate::apply_diff::replay_valid(s1, ops)
        &&& crate::apply_diff::spec_apply_diff(s1, ops) == Ok::<Seq<char>, crate::ops::DiffError>(
            s2,
        )
        &&& ops.len() == lev(s1, s2)
    }

    open spec fn spec_distance(s1: Seq<char>, s2: Seq<char>) -> nat {
        lev(s1, s2)
    }

    fn diff<'a>(&self, s1: &'a str, s2: &'a str) -> (r: Vec<StringDiffOp>) {
        let a = to_char_vec(s1);
        let b = to_char_vec(s2);
        let dir_matrix = get_operation_matrix(&a, &b);
        crate::backtrace::get_operations(&dir_matrix, &b, &a)
    }

    fn distance<'a>(&self, s1: &'a str, s2: &'a str) -> (r: usize) {
        let ops = self.diff(s1, s2);
        ops.len()
    }
}

/// Computes the Levenshtein edit script of two strings.
///
/// The script replays `s1` into `s2` and its length is the edit
/// distance; the recorded total length is the longer of the two
/// inputs.
pub fn levenshtein(s1: &str, s2: &str) -> (d: Diff)
    requires
        s1@.len() + s2@.len() < usize::MAX,
    ensures
        crate::apply_diff::replay_valid(s1@, d.ops@),
        crate::apply_diff::spec_apply_diff(s1@, d.ops@) == Ok::<Seq<char>, crate::ops::DiffError>(
            s2@,
        ),
        d.ops@.len() == lev(s1@, s2@),
        d.total_len == (if s1@.len() >= s2@.len() {
            s1@.len()
        } else {
            s2@.len()
        }),
{
    let a = to_char_vec(s1);
    let b = to_char_vec(s2);
    let dir_matrix = get_operation_matrix(&a, &b);
    let temp = crate::backtrace::get_operations(&dir_matrix, &b, &a);
    let val: usize = if a.len() >= b.len() {
        a.len()
    } else {
        b.len()
    };
    Diff::new(temp, val)
}

} // verus!
