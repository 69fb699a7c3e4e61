//! Candidate-matching library: computes a 0-100% similarity score between a
//! user's answer vector and each candidate's positions, using masked cosine
//! similarity over the jointly answered questions.
//!
//! Values are fixed-point: an answer or position of `v` stands for the real
//! number `v / 10000`, so the full range [-1, 1] is [-10000, 10000]. A percent
//! of `q` stands for `q / 100` percent, so 100.00% is 10000.

use vstd::prelude::*;

pub mod laws;
pub mod matcher;
pub mod records;
pub mod score;
pub mod text;

verus! {

/// Fixed-point scale: the integer 10000 stands for the real number 1.0.
pub const SCALE: i64 = 10000;

/// Upper bound on the number of questions, so that every intermediate
/// sum and product in the score computation fits in an `i128`.
pub const MAX_QUESTIONS: usize = 1000000;

/// An answer or position value is valid when it lies in [-1, 1],
/// that is, in [-SCALE, SCALE] in fixed-point form.
pub open spec fn in_range(v: i64) -> bool {
    -(SCALE as int) <= v as int <= SCALE as int
}

/// Checks that a fixed-point value lies in [-1, 1].
pub fn value_in_range(v: i64) -> (r: bool)
    ensures
        r == in_range(v),
{
    -SCALE <= v && v <= SCALE
}

} // verus!
