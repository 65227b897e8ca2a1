//! The backtrace: walking the direction matrix from the far corner to
//! the origin and emitting the edit script in source-index order.
//!
//! Insertions are discovered back to front, and their final indices
//! depend on steps not yet taken. Each maximal run of consecutive
//! insertion steps is therefore reversed and renumbered, starting at
//! the column where the run ends, once a non-insertion step or the end
//! of the walk is reached.

use vstd::prelude::*;

use crate::apply_diff::apply_op;
use crate::apply_diff::lemma_apply_append;
use crate::apply_diff::lemma_apply_push;
use crate::apply_diff::op_applies;
use crate::apply_diff::replay_valid;
use crate::apply_diff::spec_apply_diff;
use crate::direction::Direction;
use crate::direction::dir_matrix_wf;
use crate::levenshtein::lev;
use crate::levenshtein::lev_dir_ok;
use crate::levenshtein::lev_dirs_ok;
use crate::ops::DiffError;
use crate::ops::StringDiffOp;
use crate::ops::spec_insert_op;

verus! {

/// The final form of a run of `len` insertions closed at column `j`
/// and row `i`: the characters `b[i..i + len]`, inserted at indices
/// `j`, `j + 1`, and so on.
pub open spec fn closed_run(b: Seq<char>, i: int, j: int, len: int) -> Seq<StringDiffOp> {
    Seq::new(len as nat, |t: int| spec_insert_op(b[i + t], (j + t) as usize))
}

/// Replaying a closed run against a string whose first `j` characters
/// are kept and whose tail is `b[i + len..]` splices in the characters
/// `b[i..i + len]`.
proof fn lemma_run_close(p: Seq<char>, b: Seq<char>, i: int, j: int, len: int)
    requires
        p.len() == j,
        0 <= i,
        0 <= len,
        i + len <= b.len(),
        j + len <= usize::MAX,
    ensures
        replay_valid(p + b.skip(i + len), closed_run(b, i, j, len)),
        spec_apply_diff(p + b.skip(i + len), closed_run(b, i, j, len)) == Ok::<
            Seq<char>,
            DiffError,
        >(p + b.skip(i)),
    decreases len,
{
    let s = p + b.skip(i + len);
    let run = closed_run(b, i, j, len);
    if len == 0 {
        assert(run =~= Seq::<StringDiffOp>::empty());
        assert(s =~= p + b.skip(i));
    } else {
        let op = spec_insert_op(b[i], j as usize);
        assert(run[0] == op);
        assert(op_applies(s, op));
        let p2 = p + seq![b[i]];
        assert(apply_op(s, op) =~= p2 + b.skip(i + len));
        assert(run.skip(1) =~= closed_run(b, i + 1, j + 1, len - 1));
        lemma_run_close(p2, b, i + 1, j + 1, len - 1);
        assert(p2 + b.skip(i + 1) =~= p + b.skip(i));
    }
}

/// Reverses `my_vec[start..]` in place and renumbers those
/// operations' indices consecutively from `col`, leaving the prefix
/// untouched.
pub fn reverse_vec_and_indexes(my_vec: &mut Vec<StringDiffOp>, start: usize, col: usize)
    requires
        start <= old(my_vec)@.len(),
        col + (old(my_vec)@.len() - start) <= usize::MAX,
    ensures
        final(my_vec)@.len() == old(my_vec)@.len(),
        final(my_vec)@.take(start as int) == old(my_vec)@.take(start as int),
        forall|t: int|
            0 <= t < old(my_vec)@.len() - start ==> (#[trigger] final(my_vec)@[start + t]).kind
                == old(my_vec)@[old(my_vec)@.len() - 1 - t].kind && final(my_vec)@[start
                + t].index == col + t,
{
    let ghost orig = my_vec@;
    let tail = my_vec.split_off(start);
    let l = tail.len();
    let mut t: usize = 0;
    while t < l
        invariant
            t <= l,
            start + l == orig.len(),
            tail@ == orig.skip(start as int),
            my_vec@.len() == start + t,
            my_vec@.take(start as int) == orig.take(start as int),
            col + l <= usize::MAX,
            forall|u: int|
                0 <= u < t ==> (#[trigger] my_vec@[start + u]).kind == orig[orig.len() - 1
                    - u].kind && my_vec@[start + u].index == col + u,
        decreases l - t,
    {
        let src = tail[l - 1 - t];
        my_vec.push(StringDiffOp { kind: src.kind, index: col + t });
        proof {
            assert(my_vec@.take(start as int) =~= orig.take(start as int));
            assert(orig.skip(start as int)[l - 1 - t] == orig[orig.len() - 1 - t]);
        }
        t = t + 1;
    }
}

/// Closing a pending run of insertions preserves the replay meaning
/// of the operation vector: after the reversal and renumbering, the
/// whole vector replays the source's first `j` characters plus the
/// target's tail from `i` on.
proof fn lemma_close_run(
    pre: Seq<StringDiffOp>,
    post: Seq<StringDiffOp>,
    ta: Seq<char>,
    lb: Seq<char>,
    run_start: int,
    i: int,
    j: int,
)
    requires
        0 <= run_start <= pre.len(),
        post.len() == pre.len(),
        post.take(run_start) == pre.take(run_start),
        forall|t: int|
            0 <= t < pre.len() - run_start ==> (#[trigger] post[run_start + t]).kind == pre[pre.len()
                - 1 - t].kind && post[run_start + t].index == j + t,
        forall|t: int|
            0 <= t < pre.len() - run_start ==> #[trigger] pre[run_start + t] == spec_insert_op(
                lb[i + (pre.len() - run_start) - 1 - t],
                0usize,
            ),
        0 <= i,
        i + (pre.len() - run_start) <= lb.len(),
        0 <= j <= ta.len(),
        j + (pre.len() - run_start) <= usize::MAX,
        replay_valid(ta, pre.take(run_start)),
        spec_apply_diff(ta, pre.take(run_start)) == Ok::<Seq<char>, DiffError>(
            ta.take(j) + lb.skip(i + (pre.len() - run_start)),
        ),
    ensures
        replay_valid(ta, post),
        spec_apply_diff(ta, post) == Ok::<Seq<char>, DiffError>(ta.take(j) + lb.skip(i)),
{
    let len = pre.len() - run_start;
    let run = closed_run(lb, i, j, len);
    assert forall|t: int| 0 <= t < len implies post[run_start + t] == run[t] by {
        assert(pre[run_start + (len - 1 - t)] == spec_insert_op(lb[i + t], 0usize));
        assert(post[run_start + t].kind == pre[pre.len() - 1 - t].kind);
        assert(pre.len() - 1 - t == run_start + (len - 1 - t));
    }
    assert(post =~= pre.take(run_start) + run);
    lemma_run_close(ta.take(j), lb, i, j, len);
    lemma_apply_append(ta, pre.take(run_start), run, ta.take(j) + lb.skip(i + len));
}

/// Walks the direction matrix and reconstructs the ordered edit
/// script turning the top string into the left string.
///
/// The result replays the top string into the left string, and its
/// length is the edit distance.
#[verifier::loop_isolation(false)]
#[verifier::rlimit(60)]
pub fn get_operations(
    my_opp: &Vec<Vec<Direction>>,
    left_string: &Vec<char>,
    top_string: &Vec<char>,
) -> (r: Vec<StringDiffOp>)
    requires
        dir_matrix_wf(my_opp@, left_string@.len() as int, top_string@.len() as int),
        lev_dirs_ok(my_opp@, top_string@, left_string@),
        top_string@.len() + left_string@.len() < usize::MAX,
    ensures
        replay_valid(top_string@, r@),
        spec_apply_diff(top_string@, r@) == Ok::<Seq<char>, DiffError>(left_string@),
        r@.len() == lev(top_string@, left_string@),
{
    let ghost ta = top_string@;
    let ghost lb = left_string@;
    let n = top_string.len();
    let m = left_string.len();
    let mut diff_ops: Vec<StringDiffOp> = Vec::new();
    let mut top_str_len: usize = n;
    let mut left_str_len: usize = m;
    let mut in_run: bool = false;
    let mut run_start: usize = 0;

    proof {
        assert(ta.take(n as int) =~= ta);
        assert(lb.take(m as int) =~= lb);
        assert(diff_ops@.take(0) =~= Seq::<StringDiffOp>::empty());
        assert(ta.take(n as int) + lb.skip(m as int) =~= ta);
        crate::levenshtein::lemma_lev_base(ta, lb, 0, 0);
    }
    while !(top_str_len == 0 && left_str_len == 0)
        invariant
            top_str_len <= n,
            left_str_len <= m,
            run_start <= diff_ops@.len(),
            !in_run ==> run_start == diff_ops@.len(),
            left_str_len + (diff_ops@.len() - run_start) <= m,
            forall|t: int|
                0 <= t < diff_ops@.len() - run_start ==> #[trigger] diff_ops@[run_start + t]
                    == spec_insert_op(
                    lb[left_str_len + (diff_ops@.len() - run_start) - 1 - t],
                    0usize,
                ),
            replay_valid(ta, diff_ops@.take(run_start as int)),
            spec_apply_diff(ta, diff_ops@.take(run_start as int)) == Ok::<Seq<char>, DiffError>(
                ta.take(top_str_len as int) + lb.skip(
                    left_str_len + (diff_ops@.len() - run_start),
                ),
            ),
            diff_ops@.len() + lev(ta.take(top_str_len as int), lb.take(left_str_len as int)) == lev(
                ta,
                lb,
            ),
        decreases top_str_len + left_str_len,
    {
        let ghost i = left_str_len as int;
        let ghost j = top_str_len as int;
        let ghost run_len = diff_ops@.len() - run_start;
        let d = my_opp[left_str_len][top_str_len];
        match d {
            Direction::Up => {
                proof {
                    if left_str_len == 0 {
                        assert(my_opp@[0]@[j] == Direction::Left);
                    }
                }
                let c = left_string[left_str_len - 1];
                let ghost pre = diff_ops@;
                diff_ops.push(StringDiffOp::new_insert(c, 0));
                in_run = true;
                left_str_len = left_str_len - 1;
                proof {
                    let ops = diff_ops@;
                    assert(ops == pre.push(spec_insert_op(c, 0usize)));
                    // The pending run grew by one; its finalized form is
                    // unchanged for earlier entries.
                    assert forall|t: int| 0 <= t < ops.len() - run_start implies #[trigger] ops[run_start
                        + t] == spec_insert_op(
                        lb[left_str_len + (ops.len() - run_start) - 1 - t],
                        0usize,
                    ) by {
                        if t < run_len {
                            assert(ops[run_start + t] == pre[run_start + t]);
                        } else {
                            assert(ops[run_start + t] == spec_insert_op(c, 0usize));
                        }
                    }
                    assert(ops.take(run_start as int) =~= pre.take(run_start as int));
                    // Cost bookkeeping for the insertion step.
                    if j == 0 {
                        crate::levenshtein::lemma_lev_base(ta, lb, i, 0);
                        crate::levenshtein::lemma_lev_base(ta, lb, i - 1, 0);
                    } else {
                        assert(lev_dir_ok(ta, lb, i, j, Direction::Up));
                    }
                }
            },
            Direction::Left => {
                proof {
                    if top_str_len == 0 {
                        if left_str_len >= 1 {
                            assert(my_opp@[i]@[0] == Direction::Up);
                        }
                    }
                }
                if in_run {
                    let ghost pre = diff_ops@;
                    reverse_vec_and_indexes(&mut diff_ops, run_start, top_str_len);
                    proof {
                        lemma_close_run(pre, diff_ops@, ta, lb, run_start as int, i, j);
                    }
                    run_start = diff_ops.len();
                    in_run = false;
                    proof {
                        assert(diff_ops@.take(run_start as int) =~= diff_ops@);
                    }
                }
                proof {
                    assert(diff_ops@.take(run_start as int) =~= diff_ops@);
                }
                let ghost prefix = diff_ops@;
                let ghost cur = ta.take(j) + lb.skip(i);
                diff_ops.push(StringDiffOp::new_delete(top_str_len - 1));
                run_start = diff_ops.len();
                top_str_len = top_str_len - 1;
                proof {
                    let op = crate::ops::spec_delete_op((j - 1) as usize);
                    assert(diff_ops@ =~= prefix.push(op));
                    assert(op_applies(cur, op));
                    lemma_apply_push(ta, prefix, cur, op);
                    assert(apply_op(cur, op) =~= ta.take(j - 1) + lb.skip(i));
                    assert(diff_ops@.take(run_start as int) =~= diff_ops@);
                    // Cost bookkeeping for the deletion step.
                    if i == 0 {
                        crate::levenshtein::lemma_lev_base(ta, lb, 0, j);
                        crate::levenshtein::lemma_lev_base(ta, lb, 0, j - 1);
                    } else {
                        assert(lev_dir_ok(ta, lb, i, j, Direction::Left));
                    }
                }
            },
            Direction::Diagonal => {
                proof {
                    if left_str_len == 0 {
                        assert(my_opp@[0]@[j] == Direction::Left);
                    }
                    if top_str_len == 0 {
                        assert(my_opp@[i]@[0] == Direction::Up);
                    }
                }
                if in_run {
                    let ghost pre = diff_ops@;
                    reverse_vec_and_indexes(&mut diff_ops, run_start, top_str_len);
                    proof {
                        lemma_close_run(pre, diff_ops@, ta, lb, run_start as int, i, j);
                    }
                    run_start = diff_ops.len();
                    in_run = false;
                    proof {
                        assert(diff_ops@.take(run_start as int) =~= diff_ops@);
                    }
                }
                proof {
                    assert(diff_ops@.take(run_start as int) =~= diff_ops@);
                }
                let ghost prefix = diff_ops@;
                let ghost cur = ta.take(j) + lb.skip(i);
                let cx = top_string[top_str_len - 1];
                let cy = left_string[left_str_len - 1];
                if cx != cy {
                    diff_ops.push(StringDiffOp::new_substitute(cx, cy, top_str_len - 1));
                    proof {
                        let op = crate::ops::spec_sub_op(cx, cy, (j - 1) as usize);
                        assert(diff_ops@ =~= prefix.push(op));
                        assert(op_applies(cur, op));
                        lemma_apply_push(ta, prefix, cur, op);
                        assert(apply_op(cur, op) =~= ta.take(j - 1) + lb.skip(i - 1));
                    }
                } else {
                    proof {
                        assert(ta.take(j) + lb.skip(i) =~= ta.take(j - 1) + lb.skip(i - 1));
                    }
                }
                run_start = diff_ops.len();
                top_str_len = top_str_len - 1;
                left_str_len = left_str_len - 1;
                in_run = false;
                proof {
                    assert(diff_ops@.take(run_start as int) =~= diff_ops@);
                    // Cost bookkeeping for the diagonal step.
                    assert(lev_dir_ok(ta, lb, i, j, Direction::Diagonal));
                }
            },
        }
    }
    if in_run {
        let ghost pre = diff_ops@;
        reverse_vec_and_indexes(&mut diff_ops, run_start, 0);
        proof {
            lemma_close_run(pre, diff_ops@, ta, lb, run_start as int, 0, 0);
        }
    }
    proof {
        assert(diff_ops@.take(diff_ops@.len() as int) =~= diff_ops@);
        assert(ta.take(0) + lb.skip(0) =~= lb);
        crate::levenshtein::lemma_lev_base(ta, lb, 0, 0);
        assert(lev(ta.take(0), lb.take(0)) == 0);
    }
    diff_ops
}

} // verus!
