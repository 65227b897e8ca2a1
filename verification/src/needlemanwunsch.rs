//! Needleman-Wunsch global alignment.
//!
//! The same dynamic-programming shape as the edit-distance builder,
//! but maximizing a score: +1 for a character match, -1 for a mismatch
//! and -1 per gap, with boundary cells at the negated prefix lengths.
//! The backtrace prepends one column per step to the two output
//! strings, writing the gap character `-` where a string contributes
//! no character.
//!
//! Tie-break rule, part of the contract: the maximum-score selection
//! checks up, then left, then diagonal, each winning a tie against the
//! later ones; the diagonal is chosen only when it is strictly
//! greater than both.

use vstd::prelude::*;

use crate::StringAlignAlgorithm;
use crate::chars::chars_to_string;
use crate::chars::to_char_vec;
use crate::direction::Direction;
use crate::direction::dir_matrix_wf;

verus! {

/// The maximum of three values.
pub open spec fn max3(x: int, y: int, z: int) -> int {
    if x >= y && x >= z {
        x
    } else if y >= z {
        y
    } else {
        z
    }
}

/// The diagonal score of aligning two characters: +1 for a match, -1
/// for a mismatch.
pub open spec fn diag_score(x: char, y: char) -> int {
    if x == y {
        1
    } else {
        -1
    }
}

/// The optimal global-alignment score of `a` against `b` under the
/// fixed scoring (+1 match, -1 mismatch, -1 gap).
pub open spec fn nw_score(a: Seq<char>, b: Seq<char>) -> int
    decreases a.len() + b.len(),
{
    if a.len() == 0 {
        -(b.len() as int)
    } else if b.len() == 0 {
        -(a.len() as int)
    } else {
        max3(
            nw_score(a, b.drop_last()) - 1,
            nw_score(a.drop_last(), b) - 1,
            nw_score(a.drop_last(), b.drop_last()) + diag_score(a.last(), b.last()),
        )
    }
}

/// The score's magnitude never exceeds the two lengths together.
proof fn lemma_nw_bound(a: Seq<char>, b: Seq<char>)
    ensures
        -(a.len() + b.len()) <= nw_score(a, b) <= a.len() + b.len(),
    decreases a.len() + b.len(),
{
    if a.len() == 0 {
    } else if b.len() == 0 {
    } else {
        lemma_nw_bound(a, b.drop_last());
        lemma_nw_bound(a.drop_last(), b);
        lemma_nw_bound(a.drop_last(), b.drop_last());
    }
}

/// Aligning a prefix against an empty prefix costs one gap per
/// character.
proof fn lemma_nw_base(a: Seq<char>, b: Seq<char>, i: int, j: int)
    requires
        0 <= j <= a.len(),
        0 <= i <= b.len(),
    ensures
        nw_score(a.take(j), b.take(0)) == -j,
        nw_score(a.take(0), b.take(i)) == -i,
{
    assert(a.take(0) =~= Seq::<char>::empty());
    assert(b.take(0) =~= Seq::<char>::empty());
    assert(a.take(j).len() == j);
    assert(b.take(i).len() == i);
}

/// The recurrence over prefixes: an interior cell is the maximum over
/// its up, left and diagonal predecessors.
proof fn lemma_nw_step(a: Seq<char>, b: Seq<char>, i: int, j: int)
    requires
        1 <= j <= a.len(),
        1 <= i <= b.len(),
    ensures
        nw_score(a.take(j), b.take(i)) == max3(
            nw_score(a.take(j), b.take(i - 1)) - 1,
            nw_score(a.take(j - 1), b.take(i)) - 1,
            nw_score(a.take(j - 1), b.take(i - 1)) + diag_score(a[j - 1], b[i - 1]),
        ),
{
    let x = a.take(j);
    let y = b.take(i);
    assert(x.len() == j);
    assert(y.len() == i);
    assert(x.drop_last() =~= a.take(j - 1));
    assert(y.drop_last() =~= b.take(i - 1));
    assert(x.last() == a[j - 1]);
    assert(y.last() == b[i - 1]);
}

/// The direction recorded at an interior cell, fully determined by
/// the scores of the three predecessors and the tie-break order.
pub open spec fn nw_dir(a: Seq<char>, b: Seq<char>, i: int, j: int) -> Direction {
    let up = nw_score(a.take(j), b.take(i - 1)) - 1;
    let left = nw_score(a.take(j - 1), b.take(i)) - 1;
    let diag = nw_score(a.take(j - 1), b.take(i - 1)) + diag_score(a[j - 1], b[i - 1]);
    if up >= left && up >= diag {
        Direction::Up
    } else if left >= diag {
        Direction::Left
    } else {
        Direction::Diagonal
    }
}

/// Every interior cell's direction is the one the recurrence and the
/// tie-break determine.
pub open spec fn nw_dirs_ok(m: Seq<Vec<Direction>>, a: Seq<char>, b: Seq<char>) -> bool {
    forall|i: int, j: int|
        1 <= i <= b.len() && 1 <= j <= a.len() ==> #[trigger] m[i]@[j] == nw_dir(a, b, i, j)
}

/// The gap-padded alignment of `a`'s first `j` characters against
/// `b`'s first `i`, read off the deterministic direction choice cell
/// by cell. The first component is padded `a`, the second padded `b`.
pub open spec fn nw_align_spec(a: Seq<char>, b: Seq<char>, i: int, j: int) -> (Seq<char>, Seq<
    char,
>)
    decreases i + j when 0 <= i && 0 <= j
{
    if i <= 0 && j <= 0 {
        (Seq::empty(), Seq::empty())
    } else {
        let d = if i <= 0 {
            Direction::Left
        } else if j <= 0 {
            Direction::Up
        } else {
            nw_dir(a, b, i, j)
        };
        match d {
            Direction::Up => {
                let r = nw_align_spec(a, b, i - 1, j);
                (r.0.push('-'), r.1.push(b[i - 1]))
            },
            Direction::Left => {
                let r = nw_align_spec(a, b, i, j - 1);
                (r.0.push(a[j - 1]), r.1.push('-'))
            },
            Direction::Diagonal => {
                let r = nw_align_spec(a, b, i - 1, j - 1);
                (r.0.push(a[j - 1]), r.1.push(b[i - 1]))
            },
        }
    }
}

/// Chooses the maximum of the three neighbouring scores and the
/// direction it came from: up wins ties, then left; the diagonal is
/// chosen only when strictly above both.
pub fn max_dist_with_dir(x: isize, y: isize, z: isize) -> (r: (isize, Direction))
    ensures
        r.0 == max3(x as int, y as int, z as int),
        r.1 == Direction::Up ==> r.0 == x,
        r.1 == Direction::Left ==> r.0 == y,
        r.1 == Direction::Diagonal ==> r.0 == z,
        r.1 == (if x >= y && x >= z {
            Direction::Up
        } else if y >= z {
            Direction::Left
        } else {
            Direction::Diagonal
        }),
{
    if x >= y && x >= z {
        (x, Direction::Up)
    } else if y >= x && y >= z {
        (y, Direction::Left)
    } else {
        (z, Direction::Diagonal)
    }
}

/// One row of the score matrix holds the scores of every prefix of
/// `a` against the first `i` characters of `b`.
spec fn nw_row_ok(row: Seq<isize>, a: Seq<char>, b: Seq<char>, i: int) -> bool {
    &&& row.len() == a.len() + 1
    &&& (forall|j: int| 0 <= j <= a.len() ==> #[trigger] row[j] == nw_score(a.take(j), b.take(i)))
}

/// Builds the direction matrix of the Needleman-Wunsch recurrence for
/// the top string `a` (columns) and left string `b` (rows).
#[verifier::loop_isolation(false)]
pub fn get_alignment_matrix(a: &Vec<char>, b: &Vec<char>) -> (dirs: Vec<Vec<Direction>>)
    requires
        a@.len() + b@.len() <= isize::MAX,
    ensures
        dir_matrix_wf(dirs@, b@.len() as int, a@.len() as int),
        nw_dirs_ok(dirs@, a@, b@),
{
    let n = a.len();
    let m = b.len();
    let mut dist: Vec<Vec<isize>> = Vec::new();
    let mut dirs: Vec<Vec<Direction>> = Vec::new();

    let mut drow: Vec<isize> = Vec::new();
    let mut rrow: Vec<Direction> = Vec::new();
    drow.push(0);
    rrow.push(Direction::Diagonal);
    let mut j: usize = 1;
    proof {
        lemma_nw_base(a@, b@, 0, 0);
    }
    while j <= n
        invariant
            1 <= j <= n + 1,
            drow@.len() == j,
            rrow@.len() == j,
            forall|jj: int| 0 <= jj < j ==> #[trigger] drow@[jj] == nw_score(
                a@.take(jj),
                b@.take(0),
            ),
            rrow@[0] == Direction::Diagonal,
            forall|jj: int| 1 <= jj < j ==> #[trigger] rrow@[jj] == Direction::Left,
        decreases n + 1 - j,
    {
        proof {
            lemma_nw_base(a@, b@, 0, j as int);
        }
        let v: isize = -(j as isize);
        drow.push(v);
        rrow.push(Direction::Left);
        j = j + 1;
    }
    dist.push(drow);
    dirs.push(rrow);

    let mut i: usize = 1;
    while i <= m
        invariant
            1 <= i <= m + 1,
            dist@.len() == i,
            dirs@.len() == i,
            forall|r: int| 0 <= r < i ==> nw_row_ok((#[trigger] dist@[r])@, a@, b@, r),
            forall|r: int| 0 <= r < i ==> (#[trigger] dirs@[r])@.len() == n + 1,
            dirs@[0]@[0] == Direction::Diagonal,
            forall|jj: int| 1 <= jj <= n ==> #[trigger] dirs@[0]@[jj] == Direction::Left,
            forall|r: int| 1 <= r < i ==> (#[trigger] dirs@[r])@[0] == Direction::Up,
            forall|r: int, jj: int|
                1 <= r < i && 1 <= jj <= n ==> #[trigger] dirs@[r]@[jj] == nw_dir(a@, b@, r, jj),
        decreases m + 1 - i,
    {
        let mut drow: Vec<isize> = Vec::new();
        let mut rrow: Vec<Direction> = Vec::new();
        let v: isize = -(i as isize);
        drow.push(v);
        rrow.push(Direction::Up);
        proof {
            lemma_nw_base(a@, b@, i as int, 0);
        }
        let mut j: usize = 1;
        while j <= n
            invariant
                1 <= j <= n + 1,
                drow@.len() == j,
                rrow@.len() == j,
                dist@.len() == i,
                forall|r: int| 0 <= r < i ==> nw_row_ok((#[trigger] dist@[r])@, a@, b@, r),
                forall|jj: int| 0 <= jj < j ==> #[trigger] drow@[jj] == nw_score(
                    a@.take(jj),
                    b@.take(i as int),
                ),
                rrow@[0] == Direction::Up,
                forall|jj: int| 1 <= jj < j ==> #[trigger] rrow@[jj] == nw_dir(a@, b@, i as int, jj),
            decreases n + 1 - j,
        {
            let dc: isize = if a[j - 1] == b[i - 1] {
                1
            } else {
                -1
            };
            proof {
                lemma_nw_bound(a@.take(j as int), b@.take(i - 1));
                lemma_nw_bound(a@.take(j - 1), b@.take(i as int));
                lemma_nw_bound(a@.take(j - 1), b@.take(i - 1));
                lemma_nw_step(a@, b@, i as int, j as int);
            }
            let up = dist[i - 1][j] - 1;
            let left = drow[j - 1] - 1;
            let diag = dist[i - 1][j - 1] + dc;
            let (val, d) = max_dist_with_dir(up, left, diag);
            drow.push(val);
            rrow.push(d);
            j = j + 1;
        }
        dist.push(drow);
        dirs.push(rrow);
        i = i + 1;
    }
    dirs
}

/// Walks the direction matrix and builds the two gap-padded strings,
/// prepending one column per step.
#[verifier::loop_isolation(false)]
pub fn align_strings(s1: &Vec<char>, s2: &Vec<char>, dir_vector: &Vec<Vec<Direction>>) -> (r: (
    String,
    String,
))
    requires
        dir_matrix_wf(dir_vector@, s2@.len() as int, s1@.len() as int),
        nw_dirs_ok(dir_vector@, s1@, s2@),
    ensures
        r.0@ == nw_align_spec(s1@, s2@, s2@.len() as int, s1@.len() as int).0,
        r.1@ == nw_align_spec(s1@, s2@, s2@.len() as int, s1@.len() as int).1,
{
    let ghost ta = s1@;
    let ghost lb = s2@;
    let n = s1.len();
    let m = s2.len();
    let mut top_string: Vec<char> = Vec::new();
    let mut left_string: Vec<char> = Vec::new();
    let mut top_str_len: usize = n;
    let mut left_str_len: usize = m;
    proof {
        assert(nw_align_spec(ta, lb, m as int, n as int).0 =~= nw_align_spec(
            ta,
            lb,
            m as int,
            n as int,
        ).0 + top_string@);
        assert(nw_align_spec(ta, lb, m as int, n as int).1 =~= nw_align_spec(
            ta,
            lb,
            m as int,
            n as int,
        ).1 + left_string@);
    }
    while !(top_str_len == 0 && left_str_len == 0)
        invariant
            top_str_len <= n,
            left_str_len <= m,
            nw_align_spec(ta, lb, m as int, n as int).0 == nw_align_spec(
                ta,
                lb,
                left_str_len as int,
                top_str_len as int,
            ).0 + top_string@,
            nw_align_spec(ta, lb, m as int, n as int).1 == nw_align_spec(
                ta,
                lb,
                left_str_len as int,
                top_str_len as int,
            ).1 + left_string@,
        decreases top_str_len + left_str_len,
    {
        let ghost i = left_str_len as int;
        let ghost j = top_str_len as int;
        let ghost prev_top = top_string@;
        let ghost prev_left = left_string@;
        let d = dir_vector[left_str_len][top_str_len];
        match d {
            Direction::Up => {
                proof {
                    if left_str_len == 0 {
                        assert(dir_vector@[0]@[j] == Direction::Left);
                    }
                }
                top_string.insert(0, '-');
                left_string.insert(0, s2[left_str_len - 1]);
                left_str_len = left_str_len - 1;
                proof {
                    let r = nw_align_spec(ta, lb, i - 1, j);
                    assert(nw_align_spec(ta, lb, i, j).0 == r.0.push('-'));
                    assert(nw_align_spec(ta, lb, i, j).1 == r.1.push(lb[i - 1]));
                    assert(r.0.push('-') + prev_top =~= r.0 + top_string@);
                    assert(r.1.push(lb[i - 1]) + prev_left =~= r.1 + left_string@);
                }
            },
            Direction::Left => {
                proof {
                    if top_str_len == 0 && left_str_len >= 1 {
                        assert(dir_vector@[i]@[0] == Direction::Up);
                    }
                }
                top_string.insert(0, s1[top_str_len - 1]);
                left_string.insert(0, '-');
                top_str_len = top_str_len - 1;
                proof {
                    let r = nw_align_spec(ta, lb, i, j - 1);
                    assert(nw_align_spec(ta, lb, i, j).0 == r.0.push(ta[j - 1]));
                    assert(nw_align_spec(ta, lb, i, j).1 == r.1.push('-'));
                    assert(r.0.push(ta[j - 1]) + prev_top =~= r.0 + top_string@);
                    assert(r.1.push('-') + prev_left =~= r.1 + left_string@);
                }
            },
            Direction::Diagonal => {
                proof {
                    if left_str_len == 0 {
                        assert(dir_vector@[0]@[j] == Direction::Left);
                    }
                    if top_str_len == 0 {
                        assert(dir_vector@[i]@[0] == Direction::Up);
                    }
                }
                top_string.insert(0, s1[top_str_len - 1]);
                left_string.insert(0, s2[left_str_len - 1]);
                top_str_len = top_str_len - 1;
                left_str_len = left_str_len - 1;
                proof {
                    let r = nw_align_spec(ta, lb, i - 1, j - 1);
                    assert(nw_align_spec(ta, lb, i, j).0 == r.0.push(ta[j - 1]));
                    assert(nw_align_spec(ta, lb, i, j).1 == r.1.push(lb[i - 1]));
                    assert(r.0.push(ta[j - 1]) + prev_top =~= r.0 + top_string@);
                    assert(r.1.push(lb[i - 1]) + prev_left =~= r.1 + left_string@);
                }
            },
        }
    }
    proof {
        assert(nw_align_spec(ta, lb, 0, 0).0 + top_string@ =~= top_string@);
        assert(nw_align_spec(ta, lb, 0, 0).1 + left_string@ =~= left_string@);
    }
    (chars_to_string(&top_string), chars_to_string(&left_string))
}

/// A padded string with every gap character removed.
pub open spec fn strip_gaps(s: Seq<char>) -> Seq<char>
    decreases s.len(),
{
    if s.len() == 0 {
        Seq::empty()
    } else {
        strip_gaps(s.drop_last()) + (if s.last() == '-' {
            Seq::empty()
        } else {
            seq![s.last()]
        })
    }
}

proof fn lemma_align_len_helper(a: Seq<char>, b: Seq<char>, i: int, j: int)
    requires
        0 <= i,
        0 <= j,
    ensures
        nw_align_spec(a, b, i, j).0.len() == nw_align_spec(a, b, i, j).1.len(),
    decreases i + j,
{
    if i <= 0 && j <= 0 {
    } else {
        let d = if i <= 0 {
            Direction::Left
        } else if j <= 0 {
            Direction::Up
        } else {
            nw_dir(a, b, i, j)
        };
        match d {
            Direction::Up => lemma_align_len_helper(a, b, i - 1, j),
            Direction::Left => lemma_align_len_helper(a, b, i, j - 1),
            Direction::Diagonal => lemma_align_len_helper(a, b, i - 1, j - 1),
        }
    }
}

proof fn lemma_align_strip_helper(a: Seq<char>, b: Seq<char>, i: int, j: int)
    requires
        0 <= i <= b.len(),
        0 <= j <= a.len(),
        forall|k: int| 0 <= k < a.len() ==> a[k] != '-',
        forall|k: int| 0 <= k < b.len() ==> b[k] != '-',
    ensures
        strip_gaps(nw_align_spec(a, b, i, j).0) == a.take(j),
        strip_gaps(nw_align_spec(a, b, i, j).1) == b.take(i),
    decreases i + j,
{
    if i <= 0 && j <= 0 {
        assert(a.take(0) =~= Seq::<char>::empty());
        assert(b.take(0) =~= Seq::<char>::empty());
    } else {
        let d = if i <= 0 {
            Direction::Left
        } else if j <= 0 {
            Direction::Up
        } else {
            nw_dir(a, b, i, j)
        };
        match d {
            Direction::Up => {
                lemma_align_strip_helper(a, b, i - 1, j);
                let r = nw_align_spec(a, b, i - 1, j);
                assert(r.0.push('-').drop_last() =~= r.0);
                assert(r.1.push(b[i - 1]).drop_last() =~= r.1);
                assert(strip_gaps(r.1) + seq![b[i - 1]] =~= b.take(i));
            },
            Direction::Left => {
                lemma_align_strip_helper(a, b, i, j - 1);
                let r = nw_align_spec(a, b, i, j - 1);
                assert(r.0.push(a[j - 1]).drop_last() =~= r.0);
                assert(r.1.push('-').drop_last() =~= r.1);
                assert(strip_gaps(r.0) + seq![a[j - 1]] =~= a.take(j));
            },
            Direction::Diagonal => {
                lemma_align_strip_helper(a, b, i - 1, j - 1);
                let r = nw_align_spec(a, b, i - 1, j - 1);
                assert(r.0.push(a[j - 1]).drop_last() =~= r.0);
                assert(r.1.push(b[i - 1]).drop_last() =~= r.1);
                assert(strip_gaps(r.0) + seq![a[j - 1]] =~= a.take(j));
                assert(strip_gaps(r.1) + seq![b[i - 1]] =~= b.take(i));
            },
        }
    }
}

/// Law: the two strings of an alignment always have equal length.
pub proof fn lemma_alignment_strings_equal_len(a: Seq<char>, b: Seq<char>)
    ensures
        nw_align_spec(a, b, b.len() as int, a.len() as int).0.len() == nw_align_spec(
            a,
            b,
            b.len() as int,
            a.len() as int,
        ).1.len(),
{
    lemma_align_len_helper(a, b, b.len() as int, a.len() as int);
}

/// Law: for inputs free of the gap character, removing every gap from
/// the first aligned string recovers the top input, and from the
/// second the left input.
pub proof fn lemma_alignment_recovers_inputs(a: Seq<char>, b: Seq<char>)
    requires
        forall|k: int| 0 <= k < a.len() ==> a[k] != '-',
        forall|k: int| 0 <= k < b.len() ==> b[k] != '-',
    ensures
        strip_gaps(nw_align_spec(a, b, b.len() as int, a.len() as int).0) == a,
        strip_gaps(nw_align_spec(a, b, b.len() as int, a.len() as int).1) == b,
{
    lemma_align_strip_helper(a, b, b.len() as int, a.len() as int);
    assert(a.take(a.len() as int) =~= a);
    assert(b.take(b.len() as int) =~= b);
}

/// The Needleman-Wunsch algorithm as a [`StringAlignAlgorithm`]. The
/// returned pair is exactly the alignment the recurrence and the
/// tie-break determine.
pub struct NeedlemanWunsch {}

impl StringAlignAlgorithm for NeedlemanWunsch {
    open spec fn valid_input(s1: Seq<char>, s2: Seq<char>) -> bool {
        s1.len() + s2.len() <= isize::MAX
    }

    open spec fn align_ok(s1: Seq<char>, s2: Seq<char>, t: Seq<char>, l: Seq<char>) -> bool {
        &&& t == nw_align_spec(s1, s2, s2.len() as int, s1.len() as int).0
        &&& l == nw_align_spec(s1, s2, s2.len() as int, s1.len() as int).1
    }

    fn align<'a>(&self, s1: &'a str, s2: &'a str) -> (r: (String, String)) {
        let a = to_char_vec(s1);
        let b = to_char_vec(s2);
        let dir_vector = get_alignment_matrix(&a, &b);
        align_strings(&a, &b, &dir_vector)
    }
}

} // verus!
