//! Replaying an edit script against a source string.
//!
//! A script is a replay log: each operation's index refers to the
//! string as mutated by the operations before it. The specification
//! functions here give that replay a mathematical meaning, which both
//! [`apply_diff`] and the diff constructors' contracts share.

use vstd::prelude::*;

use crate::chars::chars_to_string;
use crate::chars::to_char_vec;
use crate::ops::DiffError;
use crate::ops::StringDiffOp;
use crate::ops::StringDiffOpKind;

verus! {

/// Whether one operation can be applied to `s` without leaving its
/// bounds. A `Transpose` is always "appliable" in this sense: replaying
/// it reports an error rather than reading an index.
pub open spec fn op_applies(s: Seq<char>, op: StringDiffOp) -> bool {
    match op.kind {
        StringDiffOpKind::Substitute(_, _) => op.index < s.len(),
        StringDiffOpKind::Insert(_) => op.index <= s.len(),
        StringDiffOpKind::Delete => op.index < s.len(),
        StringDiffOpKind::Transpose => true,
    }
}

/// The string after one operation: `Delete` removes the character at
/// the index, `Insert` inserts its character there, and `Substitute`
/// replaces the character there with the operation's second character.
pub open spec fn apply_op(s: Seq<char>, op: StringDiffOp) -> Seq<char> {
    match op.kind {
        StringDiffOpKind::Substitute(_, c) => s.update(op.index as int, c),
        StringDiffOpKind::Insert(c) => s.insert(op.index as int, c),
        StringDiffOpKind::Delete => s.remove(op.index as int),
        StringDiffOpKind::Transpose => s,
    }
}

/// Every operation's index is in bounds at the moment it is applied,
/// up to the first `Transpose` (replay stops there with an error).
pub open spec fn replay_valid(s: Seq<char>, ops: Seq<StringDiffOp>) -> bool
    decreases ops.len(),
{
    ops.len() == 0 || {
        &&& op_applies(s, ops[0])
        &&& (ops[0].kind is Transpose || replay_valid(apply_op(s, ops[0]), ops.skip(1)))
    }
}

/// The result of replaying a whole script in order: the transformed
/// string, or an error at the first `Transpose`.
pub open spec fn spec_apply_diff(s: Seq<char>, ops: Seq<StringDiffOp>) -> Result<
    Seq<char>,
    DiffError,
>
    decreases ops.len(),
{
    if ops.len() == 0 {
        Ok(s)
    } else if ops[0].kind is Transpose {
        Err(DiffError::UnsupportedOperation)
    } else {
        spec_apply_diff(apply_op(s, ops[0]), ops.skip(1))
    }
}

/// Whether the script contains a `Transpose` operation anywhere.
pub open spec fn has_transpose(ops: Seq<StringDiffOp>) -> bool {
    exists|k: int| 0 <= k < ops.len() && (#[trigger] ops[k].kind) is Transpose
}

/// Replay reports an error exactly when the script holds a
/// `Transpose`.
pub proof fn lemma_apply_ok_iff_no_transpose(s: Seq<char>, ops: Seq<StringDiffOp>)
    ensures
        spec_apply_diff(s, ops) is Ok <==> !has_transpose(ops),
    decreases ops.len(),
{
    if ops.len() == 0 {
    } else if ops[0].kind is Transpose {
        assert(has_transpose(ops));
    } else {
        lemma_apply_ok_iff_no_transpose(apply_op(s, ops[0]), ops.skip(1));
        if has_transpose(ops) {
            let k = choose|k: int| 0 <= k < ops.len() && (#[trigger] ops[k].kind) is Transpose;
            assert(ops.skip(1)[k - 1].kind is Transpose);
        }
        if has_transpose(ops.skip(1)) {
            let k = choose|k: int|
                0 <= k < ops.skip(1).len() && (#[trigger] ops.skip(1)[k].kind) is Transpose;
            assert(ops[k + 1].kind is Transpose);
        }
    }
}

/// Replaying a concatenation replays the first script, then the second
/// on its result.
pub proof fn lemma_apply_append(
    s: Seq<char>,
    ops1: Seq<StringDiffOp>,
    ops2: Seq<StringDiffOp>,
    t: Seq<char>,
)
    requires
        replay_valid(s, ops1),
        spec_apply_diff(s, ops1) == Ok::<Seq<char>, DiffError>(t),
        replay_valid(t, ops2),
    ensures
        replay_valid(s, ops1 + ops2),
        spec_apply_diff(s, ops1 + ops2) == spec_apply_diff(t, ops2),
    decreases ops1.len(),
{
    if ops1.len() == 0 {
        assert(ops1 + ops2 =~= ops2);
    } else {
        assert((ops1 + ops2)[0] == ops1[0]);
        assert((ops1 + ops2).skip(1) =~= ops1.skip(1) + ops2);
        lemma_apply_append(apply_op(s, ops1[0]), ops1.skip(1), ops2, t);
    }
}

/// Appending one in-bounds, non-`Transpose` operation to a script that
/// replays to `t` extends the replay by that operation.
pub proof fn lemma_apply_push(
    s: Seq<char>,
    ops: Seq<StringDiffOp>,
    t: Seq<char>,
    op: StringDiffOp,
)
    requires
        replay_valid(s, ops),
        spec_apply_diff(s, ops) == Ok::<Seq<char>, DiffError>(t),
        op_applies(t, op),
        !(op.kind is Transpose),
    ensures
        replay_valid(s, ops.push(op)),
        spec_apply_diff(s, ops.push(op)) == Ok::<Seq<char>, DiffError>(apply_op(t, op)),
    decreases ops.len(),
{
    let single = seq![op];
    assert(ops.push(op) =~= ops + single);
    assert(single.skip(1) =~= Seq::<StringDiffOp>::empty());
    assert(single[0] == op);
    assert(replay_valid(apply_op(t, op), single.skip(1)));
    assert(replay_valid(t, single));
    assert(spec_apply_diff(apply_op(t, op), single.skip(1)) == Ok::<Seq<char>, DiffError>(
        apply_op(t, op),
    ));
    assert(spec_apply_diff(t, single) == Ok::<Seq<char>, DiffError>(apply_op(t, op)));
    lemma_apply_append(s, ops, single, t);
}

/// Replaying an empty script returns the input unchanged.
pub proof fn lemma_apply_empty(s: Seq<char>)
    ensures
        spec_apply_diff(s, Seq::<StringDiffOp>::empty()) == Ok::<Seq<char>, DiffError>(s),
        replay_valid(s, Seq::<StringDiffOp>::empty()),
{
}

/// Replays an edit script against `s`, in script order.
///
/// Fails with [`DiffError::UnsupportedOperation`] exactly when the
/// script contains a `Transpose`; otherwise returns the transformed
/// string. Every operation's index must be in bounds for the string as
/// progressively mutated, which is what `replay_valid` demands.
pub fn apply_diff(s: &str, diffs: Vec<StringDiffOp>) -> (r: Result<String, DiffError>)
    requires
        replay_valid(s@, diffs@),
    ensures
        (match spec_apply_diff(s@, diffs@) {
            Ok(t) => r matches Ok(u) && u@ == t,
            Err(e) => r == Err::<String, DiffError>(e),
        }),
        r is Ok <==> !has_transpose(diffs@),
{
    proof {
        lemma_apply_ok_iff_no_transpose(s@, diffs@);
    }
    let mut cur = to_char_vec(s);
    let mut k: usize = 0;
    proof {
        assert(diffs@.skip(0) =~= diffs@);
    }
    while k < diffs.len()
        invariant
            k <= diffs@.len(),
            replay_valid(cur@, diffs@.skip(k as int)),
            spec_apply_diff(cur@, diffs@.skip(k as int)) == spec_apply_diff(s@, diffs@),
            spec_apply_diff(s@, diffs@) is Ok <==> !has_transpose(diffs@),
        decreases diffs@.len() - k,
    {
        let op = diffs[k];
        proof {
            assert(diffs@.skip(k as int)[0] == op);
            assert(diffs@.skip(k as int).skip(1) =~= diffs@.skip(k as int + 1));
        }
        match op.kind {
            StringDiffOpKind::Delete => {
                cur.remove(op.index);
            },
            StringDiffOpKind::Insert(c) => {
                cur.insert(op.index, c);
            },
            StringDiffOpKind::Substitute(_b, c) => {
                cur[op.index] = c;
            },
            StringDiffOpKind::Transpose => {
                return Err(DiffError::UnsupportedOperation);
            },
        }
        k = k + 1;
    }
    proof {
        assert(diffs@.skip(diffs@.len() as int) =~= Seq::<StringDiffOp>::empty());
    }
    Ok(chars_to_string(&cur))
}

} // verus!
