//! String difference and alignment library.
//!
//! Computes edit scripts between character sequences: Hamming distance
//! (positional substitutions over equal-length strings), Levenshtein
//! distance with full edit-script recovery, and Needleman-Wunsch global
//! alignment. A previously computed edit script can be replayed against
//! its source string to reconstruct the target.

use vstd::prelude::*;

pub mod apply_diff;
pub mod backtrace;
pub mod chars;
pub mod diff;
pub mod direction;
pub mod hamming;
pub mod levenshtein;
pub mod needlemanwunsch;
pub mod ops;

pub use crate::apply_diff::apply_diff;
pub use crate::diff::Diff;
pub use crate::diff::OpTally;
pub use crate::direction::Direction;
pub use crate::hamming::HammingDistance;
pub use crate::hamming::hamming;
pub use crate::levenshtein::LevenshteinDistance;
pub use crate::levenshtein::levenshtein;
pub use crate::needlemanwunsch::NeedlemanWunsch;
pub use crate::ops::DiffError;
pub use crate::ops::StringDiffOp;
pub use crate::ops::StringDiffOpKind;

verus! {

/// One capability interface over the distance algorithms: produce an
/// edit script, or just count its operations. Each implementor fixes,
/// as spec functions, which inputs it accepts, what its scripts
/// satisfy, and the distance value its script lengths equal.
pub trait StringDiffAlgorithm {
    spec fn valid_input(s1: Seq<char>, s2: Seq<char>) -> bool;

    spec fn ops_ok(s1: Seq<char>, s2: Seq<char>, ops: Seq<StringDiffOp>) -> bool;

    spec fn spec_distance(s1: Seq<char>, s2: Seq<char>) -> nat;

    fn diff<'a>(&self, s1: &'a str, s2: &'a str) -> (r: Vec<StringDiffOp>)
        requires
            Self::valid_input(s1@, s2@),
        ensures
            Self::ops_ok(s1@, s2@, r@),
            r@.len() == Self::spec_distance(s1@, s2@),
    ;

    fn distance<'a>(&self, s1: &'a str, s2: &'a str) -> (r: usize)
        requires
            Self::valid_input(s1@, s2@),
        ensures
            r == Self::spec_distance(s1@, s2@),
    ;
}

/// The capability interface over global alignment algorithms: produce
/// a pair of equal-length gap-padded strings. Each implementor fixes,
/// as spec functions, which inputs it accepts and what the returned
/// pair satisfies.
pub trait StringAlignAlgorithm {
    spec fn valid_input(s1: Seq<char>, s2: Seq<char>) -> bool;

    spec fn align_ok(s1: Seq<char>, s2: Seq<char>, t: Seq<char>, l: Seq<char>) -> bool;

    fn align<'a>(&self, s1: &'a str, s2: &'a str) -> (r: (String, String))
        requires
            Self::valid_input(s1@, s2@),
        ensures
            Self::align_ok(s1@, s2@, r.0@, r.1@),
    ;
}

} // verus!
