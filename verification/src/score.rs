//! Masked cosine similarity over fixed-point values.
//!
//! Over the overlap (the indices where the candidate has a valid position)
//! three integer sums are formed: the dot product `d`, the answers' squared
//! norm `u`, and the positions' squared norm `p`. The real-valued score is
//! `d / sqrt(u * p)`, clamped to [-1, 1], and the percent in hundredths is
//! `5000 + n` where `n` is the score times 5000, rounded half-up. No square
//! root is ever taken: `n` is characterized exactly by squared inequalities.

use vstd::prelude::*;
use crate::in_range;
use crate::value_in_range;
use crate::MAX_QUESTIONS;

verus! {

/// Question `i` contributes to the comparison: the candidate has a position
/// there, it is not the explicit absence marker, and it lies in [-1, 1].
pub open spec fn usable(pos: Seq<Option<i64>>, i: int) -> bool {
    0 <= i < pos.len() && match pos[i] {
        Some(v) => in_range(v),
        None => false,
    }
}

/// The position value at `i` as a mathematical integer (0 when unusable).
pub open spec fn pval(pos: Seq<Option<i64>>, i: int) -> int {
    match pos[i] {
        Some(v) => v as int,
        None => 0,
    }
}

/// Dot product of answers and positions over the usable indices below `n`.
pub open spec fn dot_sum(ans: Seq<i64>, pos: Seq<Option<i64>>, n: int) -> int
    decreases n,
{
    if n <= 0 {
        0
    } else {
        dot_sum(ans, pos, n - 1) + if usable(pos, n - 1) {
            (ans[n - 1] as int) * pval(pos, n - 1)
        } else {
            0
        }
    }
}

/// Squared norm of the answers over the usable indices below `n`.
pub open spec fn ans_sq_sum(ans: Seq<i64>, pos: Seq<Option<i64>>, n: int) -> int
    decreases n,
{
    if n <= 0 {
        0
    } else {
        ans_sq_sum(ans, pos, n - 1) + if usable(pos, n - 1) {
            (ans[n - 1] as int) * (ans[n - 1] as int)
        } else {
            0
        }
    }
}

/// Squared norm of the positions over the usable indices below `n`.
pub open spec fn pos_sq_sum(ans: Seq<i64>, pos: Seq<Option<i64>>, n: int) -> int
    decreases n,
{
    if n <= 0 {
        0
    } else {
        pos_sq_sum(ans, pos, n - 1) + if usable(pos, n - 1) {
            pval(pos, n - 1) * pval(pos, n - 1)
        } else {
            0
        }
    }
}

/// `c * sqrt(b) <= a2`, stated over integers alone (`b >= 0`).
pub open spec fn le_mul_sqrt(c: int, a2: int, b: int) -> bool {
    if a2 >= 0 {
        c <= 0 || c * c * b <= a2 * a2
    } else {
        c < 0 && a2 * a2 <= c * c * b
    }
}

/// `(2k - 1) * sqrt(b) <= a2`: the percent `5000 + k` is not above the score.
pub open spec fn lower_ok(k: int, a2: int, b: int) -> bool {
    le_mul_sqrt(2 * k - 1, a2, b)
}

/// The percent in hundredths that the similarity sums determine.
///
/// With `a2 = 10000 * d` (twice `5000 * d`) and `b = u * p`, the percent is
/// `5000 + n` clamped to [0, 10000], where `n = floor(d / sqrt(u * p) * 5000 + 1/2)`
/// is the score times 5000, rounded half-up. The two conditional clauses state
/// exactly the bounds `(2n - 1) * sqrt(b) <= a2 < (2n + 1) * sqrt(b)`, each
/// waived on the side where clamping cut it off; together they pin `q` to one
/// value.
pub open spec fn percent_matches(q: int, d: int, u: int, p: int) -> bool {
    let a2 = 10000 * d;
    let b = u * p;
    &&& 0 <= q <= 10000
    &&& q > 0 ==> lower_ok(q - 5000, a2, b)
    &&& q < 10000 ==> !lower_ok(q - 5000 + 1, a2, b)
}

/// `le_mul_sqrt` is antitone in its first argument.
proof fn lemma_le_mul_sqrt_antitone(c1: int, c2: int, a2: int, b: int)
    requires
        c1 <= c2,
        b >= 0,
        le_mul_sqrt(c2, a2, b),
    ensures
        le_mul_sqrt(c1, a2, b),
{
    if a2 >= 0 {
        if c1 > 0 {
            assert(0 < c1 <= c2);
            assert(c2 * c2 * b <= a2 * a2);
            assert(c1 * c1 * b <= c2 * c2 * b) by (nonlinear_arith)
                requires
                    0 < c1 <= c2,
                    b >= 0,
            ;
        }
    } else {
        assert(c2 < 0 && a2 * a2 <= c2 * c2 * b);
        assert(c2 * c2 * b <= c1 * c1 * b) by (nonlinear_arith)
            requires
                c1 <= c2 < 0,
                b >= 0,
            ;
    }
}

/// The similarity sums determine the percent uniquely.
///
/// Two percents that both satisfy `percent_matches` for the same sums are
/// equal: the score-to-percent mapping is a function of the sums alone.
pub proof fn lemma_percent_unique(q1: int, q2: int, d: int, u: int, p: int)
    requires
        u > 0,
        p > 0,
        percent_matches(q1, d, u, p),
        percent_matches(q2, d, u, p),
    ensures
        q1 == q2,
{
    let a2 = 10000 * d;
    let b = u * p;
    assert(u * p > 0) by (nonlinear_arith)
        requires
            u > 0,
            p > 0,
    ;
    if q1 < q2 {
        assert(le_mul_sqrt(2 * (q2 - 5000) - 1, a2, b));
        assert(!le_mul_sqrt(2 * (q1 - 5000 + 1) - 1, a2, b));
        lemma_le_mul_sqrt_antitone(2 * (q1 - 5000 + 1) - 1, 2 * (q2 - 5000) - 1, a2, b);
        assert(false);
    }
    if q2 < q1 {
        assert(le_mul_sqrt(2 * (q1 - 5000) - 1, a2, b));
        assert(!le_mul_sqrt(2 * (q2 - 5000 + 1) - 1, a2, b));
        lemma_le_mul_sqrt_antitone(2 * (q2 - 5000 + 1) - 1, 2 * (q1 - 5000) - 1, a2, b);
        assert(false);
    }
}

/// Decides `c * sqrt(b) <= a2` by comparing squares.
fn le_mul_sqrt_exec(c: i128, a2: i128, b: i128) -> (r: bool)
    requires
        -10001 <= c <= 10001,
        0 <= b <= 10000000000000000000000000000,
        -1000000000000000000 <= a2 <= 1000000000000000000,
    ensures
        r == le_mul_sqrt(c as int, a2 as int, b as int),
{
    proof {
        assert(0 <= c * c <= 100020001) by (nonlinear_arith)
            requires
                -10001 <= c <= 10001,
        ;
        assert(0 <= c * c * b <= 100020001 * 10000000000000000000000000000) by (nonlinear_arith)
            requires
                0 <= c * c <= 100020001,
                0 <= b <= 10000000000000000000000000000,
        ;
        assert(0 <= a2 * a2 <= 1000000000000000000 * 1000000000000000000) by (nonlinear_arith)
            requires
                -1000000000000000000 <= a2 <= 1000000000000000000,
        ;
    }
    let cc: i128 = c * c;
    let ccb: i128 = cc * b;
    let aa: i128 = a2 * a2;
    if a2 >= 0 {
        c <= 0 || ccb <= aa
    } else {
        c < 0 && aa <= ccb
    }
}

/// Computes the percent in hundredths from the three similarity sums.
///
/// Scans downward for the largest `k` in [-5000, 5000] with
/// `(2k - 1) * sqrt(u * p) <= 10000 * d`; the percent is `5000 + k`, or 0 when
/// no `k` qualifies (a score clamped at -1).
pub fn percent_from_sums(d: i128, u: i128, p: i128) -> (q: i64)
    requires
        1 <= u <= 100000000000000,
        1 <= p <= 100000000000000,
        -100000000000000 <= d <= 100000000000000,
    ensures
        percent_matches(q as int, d as int, u as int, p as int),
{
    proof {
        assert(1 <= u * p <= 10000000000000000000000000000) by (nonlinear_arith)
            requires
                1 <= u <= 100000000000000,
                1 <= p <= 100000000000000,
        ;
    }
    let b: i128 = u * p;
    let a2: i128 = 10000 * d;
    let mut k: i64 = 5000;
    while k >= -5000
        invariant
            -5001 <= k <= 5000,
            b == (u as int) * (p as int),
            1 <= b <= 10000000000000000000000000000,
            a2 == 10000 * (d as int),
            -1000000000000000000 <= a2 <= 1000000000000000000,
            forall|j: int| k < j <= 5000 ==> !lower_ok(j, a2 as int, b as int),
        decreases k + 5001,
    {
        let c: i128 = 2 * (k as i128) - 1;
        if le_mul_sqrt_exec(c, a2, b) {
            let q: i64 = 5000 + k;
            proof {
                assert(lower_ok(k as int, a2 as int, b as int));
                assert((q as int) - 5000 == k as int);
                if (q as int) < 10000 {
                    assert(!lower_ok((k as int) + 1, a2 as int, b as int));
                    assert((q as int) - 5000 + 1 == (k as int) + 1);
                }
            }
            return q;
        }
        k = k - 1;
    }
    proof {
        assert(!lower_ok(-4999, a2 as int, b as int));
        assert(0 - 5000 + 1 == -4999);
    }
    0
}

/// Accumulates the three similarity sums over the usable indices and returns
/// the percent, or `None` when either squared norm is zero (no overlap at
/// all, or only zero-valued answers or positions in the overlap).
pub fn candidate_percent(answers: &Vec<i64>, positions: &Vec<Option<i64>>, question_count: usize)
    -> (r: Option<i64>)
    requires
        question_count == answers@.len(),
        answers@.len() <= MAX_QUESTIONS,
        forall|i: int| 0 <= i < answers@.len() ==> in_range(#[trigger] answers@[i]),
    ensures
        (ans_sq_sum(answers@, positions@, question_count as int) == 0
            || pos_sq_sum(answers@, positions@, question_count as int) == 0) <==> r is None,
        r matches Some(q) ==> percent_matches(
            q as int,
            dot_sum(answers@, positions@, question_count as int),
            ans_sq_sum(answers@, positions@, question_count as int),
            pos_sq_sum(answers@, positions@, question_count as int),
        ),
{
    let mut d: i128 = 0;
    let mut u: i128 = 0;
    let mut p: i128 = 0;
    let mut i: usize = 0;
    while i < question_count
        invariant
            0 <= i <= question_count,
            question_count == answers@.len(),
            answers@.len() <= MAX_QUESTIONS,
            forall|j: int| 0 <= j < answers@.len() ==> in_range(#[trigger] answers@[j]),
            d == dot_sum(answers@, positions@, i as int),
            u == ans_sq_sum(answers@, positions@, i as int),
            p == pos_sq_sum(answers@, positions@, i as int),
            -(i as int) * 100000000 <= d <= (i as int) * 100000000,
            0 <= u <= (i as int) * 100000000,
            0 <= p <= (i as int) * 100000000,
        decreases question_count - i,
    {
        if i < positions.len() {
            if let Some(v) = positions[i] {
                if value_in_range(v) {
                    let a: i128 = answers[i] as i128;
                    let pv: i128 = v as i128;
                    proof {
                        assert(-100000000 <= a * pv <= 100000000 && 0 <= a * a <= 100000000
                            && 0 <= pv * pv <= 100000000) by (nonlinear_arith)
                            requires
                                -10000 <= a <= 10000,
                                -10000 <= pv <= 10000,
                        ;
                        assert(usable(positions@, i as int));
                        assert(pval(positions@, i as int) == pv as int);
                    }
                    d = d + a * pv;
                    u = u + a * a;
                    p = p + pv * pv;
                } else {
                    proof {
                        assert(!usable(positions@, i as int));
                    }
                }
            } else {
                proof {
                    assert(!usable(positions@, i as int));
                }
            }
        } else {
            proof {
                assert(!usable(positions@, i as int));
            }
        }
        i = i + 1;
    }
    if u == 0 || p == 0 {
        return None;
    }
    let q: i64 = percent_from_sums(d, u, p);
    Some(q)
}

} // verus!
