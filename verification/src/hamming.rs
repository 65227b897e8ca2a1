//! Hamming distance: positional substitutions over equal-length
//! strings.

use vstd::prelude::*;

use crate::StringDiffAlgorithm;
use crate::chars::to_char_vec;
use crate::diff::Diff;
use crate::ops::DiffError;
use crate::ops::StringDiffOp;
use crate::ops::spec_sub_op;

verus! {

/// The Hamming edit script: one substitution, in index order, for each
/// position where the two strings disagree.
pub open spec fn hamming_ops(a: Seq<char>, b: Seq<char>) -> Seq<StringDiffOp>
    decreases a.len(),
{
    if a.len() == 0 {
        Seq::empty()
    } else {
        hamming_ops(a.drop_last(), b.drop_last()) + (if a.last() == b.last() {
            Seq::empty()
        } else {
            seq![spec_sub_op(a.last(), b.last(), (a.len() - 1) as usize)]
        })
    }
}

/// The number of positions at which the two strings disagree.
pub open spec fn mismatch_count(a: Seq<char>, b: Seq<char>) -> nat
    decreases a.len(),
{
    if a.len() == 0 {
        0
    } else {
        mismatch_count(a.drop_last(), b.drop_last()) + (if a.last() == b.last() {
            0nat
        } else {
            1nat
        })
    }
}

/// For equal-length strings, the Hamming script holds exactly one
/// operation per index-wise mismatch: its length is the mismatch
/// count.
pub proof fn lemma_hamming_distance_counts_mismatches(a: Seq<char>, b: Seq<char>)
    requires
        a.len() == b.len(),
    ensures
        hamming_ops(a, b).len() == mismatch_count(a, b),
    decreases a.len(),
{
    if a.len() == 0 {
        assert(hamming_ops(a, b).len() == 0);
        assert(mismatch_count(a, b) == 0);
    } else {
        lemma_hamming_distance_counts_mismatches(a.drop_last(), b.drop_last());
        let rest = hamming_ops(a.drop_last(), b.drop_last());
        if a.last() == b.last() {
            assert(hamming_ops(a, b) == rest + Seq::<StringDiffOp>::empty());
            assert((rest + Seq::<StringDiffOp>::empty()).len() == rest.len());
            assert(mismatch_count(a, b) == mismatch_count(a.drop_last(), b.drop_last()));
        } else {
            let op = spec_sub_op(a.last(), b.last(), (a.len() - 1) as usize);
            assert(hamming_ops(a, b) == rest + seq![op]);
            assert((rest + seq![op]).len() == rest.len() + 1);
            assert(mismatch_count(a, b) == mismatch_count(a.drop_last(), b.drop_last()) + 1);
        }
    }
}

/// Computes the Hamming edit script of two strings.
///
/// Succeeds exactly when the strings have the same length, with one
/// substitution for each mismatching position; otherwise reports
/// [`DiffError::LengthMismatch`].
pub fn hamming(s1: &str, s2: &str) -> (r: Result<Diff, DiffError>)
    ensures
        s1@.len() == s2@.len() ==> (r matches Ok(d) && d.ops@ == hamming_ops(s1@, s2@)
            && d.total_len == s1@.len() && d.ops@.len() == mismatch_count(s1@, s2@)),
        s1@.len() != s2@.len() ==> r == Err::<Diff, DiffError>(DiffError::LengthMismatch),
{
    let a = to_char_vec(s1);
    let b = to_char_vec(s2);
    if a.len() != b.len() {
        return Err(DiffError::LengthMismatch);
    }
    let n = a.len();
    let mut opp_vec: Vec<StringDiffOp> = Vec::new();
    let mut i: usize = 0;
    proof {
        assert(a@.take(0) =~= Seq::<char>::empty());
        assert(b@.take(0) =~= Seq::<char>::empty());
    }
    while i < n
        invariant
            i <= n,
            n == a@.len(),
            n == b@.len(),
            opp_vec@ == hamming_ops(a@.take(i as int), b@.take(i as int)),
        decreases n - i,
    {
        proof {
            assert(a@.take(i + 1).drop_last() =~= a@.take(i as int));
            assert(b@.take(i + 1).drop_last() =~= b@.take(i as int));
            assert(a@.take(i + 1).last() == a@[i as int]);
            assert(b@.take(i + 1).last() == b@[i as int]);
        }
        if a[i] != b[i] {
            opp_vec.push(StringDiffOp::new_substitute(a[i], b[i], i));
            proof {
                assert(opp_vec@ =~= hamming_ops(a@.take(i + 1), b@.take(i + 1)));
            }
        } else {
            proof {
                assert(opp_vec@ =~= hamming_ops(a@.take(i + 1), b@.take(i + 1)));
            }
        }
        i = i + 1;
    }
    proof {
        assert(a@.take(n as int) =~= a@);
        assert(b@.take(n as int) =~= b@);
        lemma_hamming_distance_counts_mismatches(a@, b@);
    }
    Ok(Diff::new(opp_vec, n))
}

/// The Hamming algorithm as a [`StringDiffAlgorithm`]: it accepts only
/// equal-length inputs.
pub struct HammingDistance {}

impl StringDiffAlgorithm for HammingDistance {
    open spec fn valid_input(s1: Seq<char>, s2: Seq<char>) -> bool {
        s1.len() == s2.len()
    }

    open spec fn ops_ok(s1: Seq<char>, s2: Seq<char>, ops: Seq<StringDiffOp>) -> bool {
        ops == hamming_ops(s1, s2)
    }

    open spec fn spec_distance(s1: Seq<char>, s2: Seq<char>) -> nat {
        mismatch_count(s1, s2)
    }

    fn diff<'a>(&self, s1: &'a str, s2: &'a str) -> (r: Vec<StringDiffOp>) {
        match hamming(s1, s2) {
            Ok(d) => d.ops,
            Err(_) => unreached(),
        }
    }

    fn distance<'a>(&self, s1: &'a str, s2: &'a str) -> (r: usize) {
        let a = to_char_vec(s1);
        let b = to_char_vec(s2);
        let n = a.len();
        let mut edit_distance: usize = 0;
        let mut i: usize = 0;
        proof {
            assert(a@.take(0) =~= Seq::<char>::empty());
            assert(b@.take(0) =~= Seq::<char>::empty());
        }
        while i < n
            invariant
                i <= n,
                n == a@.len(),
                n == b@.len(),
                edit_distance <= i,
                edit_distance == mismatch_count(a@.take(i as int), b@.take(i as int)),
            decreases n - i,
        {
            proof {
                assert(a@.take(i + 1).drop_last() =~= a@.take(i as int));
                assert(b@.take(i + 1).drop_last() =~= b@.take(i as int));
                assert(a@.take(i + 1).last() == a@[i as int]);
                assert(b@.take(i + 1).last() == b@[i as int]);
            }
            if a[i] != b[i] {
                edit_distance = edit_distance + 1;
            }
            i = i + 1;
        }
        proof {
            assert(a@.take(n as int) =~= a@);
            assert(b@.take(n as int) =~= b@);
        }
        edit_distance
    }
}

} // verus!
