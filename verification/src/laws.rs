//! The library's laws, each stated and proved over the same spec functions
//! that `compute_matches` promises in its contract.

use vstd::prelude::*;
use crate::matcher::cand_positions;
use crate::matcher::eligible;
use crate::matcher::percent_ok;
use crate::records::CandidateView;
use crate::records::MatchView;
use crate::records::PoliticianMatch;
use crate::score::ans_sq_sum;
use crate::score::dot_sum;
use crate::score::le_mul_sqrt;
use crate::score::lemma_percent_unique;
use crate::score::lower_ok;
use crate::score::percent_matches;
use crate::score::pos_sq_sum;
use crate::score::pval;
use crate::score::usable;

verus! {

/// The result mapping that a sequence of keyed entries denotes: entries are
/// inserted in order, so a later entry with the same key overwrites an
/// earlier one.
pub open spec fn map_of_entries(entries: Seq<(Seq<char>, MatchView)>) -> Map<
    Seq<char>,
    MatchView,
>
    decreases entries.len(),
{
    if entries.len() == 0 {
        Map::empty()
    } else {
        map_of_entries(entries.drop_last()).insert(entries.last().0, entries.last().1)
    }
}

/// The keyed entries of a result, as mathematical values.
pub open spec fn entry_views(entries: Seq<(String, PoliticianMatch)>) -> Seq<
    (Seq<char>, MatchView),
> {
    entries.map(|i: int, e: (String, PoliticianMatch)| (e.0@, e.1@))
}

/// The mapping that a result of `compute_matches` denotes.
pub open spec fn result_map(entries: Seq<(String, PoliticianMatch)>) -> Map<
    Seq<char>,
    MatchView,
> {
    map_of_entries(entry_views(entries))
}

/// Law: the result mapping holds exactly one entry per input candidate,
/// accounting for key collisions overwriting in input order. A key is in the
/// mapping exactly when some candidate derived it, and it maps to the entry
/// of the last candidate that derived it.
pub proof fn lemma_one_entry_per_candidate(entries: Seq<(Seq<char>, MatchView)>)
    ensures
        forall|k: Seq<char>|
            #[trigger] map_of_entries(entries).contains_key(k) <==> (exists|i: int|
                0 <= i < entries.len() && (#[trigger] entries[i]).0 == k),
        forall|i: int|
            0 <= i < entries.len() && (forall|j: int|
                i < j < entries.len() ==> (#[trigger] entries[j]).0 != entries[i].0)
                ==> map_of_entries(entries)[(#[trigger] entries[i]).0] == entries[i].1,
    decreases entries.len(),
{
    if entries.len() > 0 {
        let pre = entries.drop_last();
        let n = entries.len() as int;
        lemma_one_entry_per_candidate(pre);
        assert forall|k: Seq<char>|
            #[trigger] map_of_entries(entries).contains_key(k) implies (exists|i: int|
            0 <= i < n && (#[trigger] entries[i]).0 == k) by {
            if k == entries.last().0 {
                assert((entries[n - 1]).0 == k);
            } else {
                assert(map_of_entries(pre).contains_key(k));
                let i = choose|i: int| 0 <= i < pre.len() && (#[trigger] pre[i]).0 == k;
                assert((entries[i]).0 == k);
            }
        }
        assert forall|k: Seq<char>|
            (exists|i: int| 0 <= i < n && (#[trigger] entries[i]).0 == k)
            implies #[trigger] map_of_entries(entries).contains_key(k) by {
            let i = choose|i: int| 0 <= i < n && (#[trigger] entries[i]).0 == k;
            if i == n - 1 {
                assert(entries.last().0 == k);
            } else {
                assert((pre[i]).0 == k);
                assert(map_of_entries(pre).contains_key(k));
            }
        }
        assert forall|i: int|
            0 <= i < n && (forall|j: int|
                i < j < n ==> (#[trigger] entries[j]).0 != entries[i].0)
            implies map_of_entries(entries)[(#[trigger] entries[i]).0] == entries[i].1 by {
            if i == n - 1 {
                assert(map_of_entries(entries)[entries.last().0] == entries.last().1);
            } else {
                assert((entries[n - 1]).0 != entries[i].0);
                assert(map_of_entries(entries)[entries[i].0] == map_of_entries(pre)[entries[i].0]);
                assert forall|j: int|
                    i < j < pre.len() implies (#[trigger] pre[j]).0 != pre[i].0 by {
                    assert((entries[j]).0 != entries[i].0);
                }
                assert(map_of_entries(pre)[(pre[i]).0] == pre[i].1);
            }
        }
    }
}

/// Law: `lemma_one_entry_per_candidate`, restated over the entries that
/// `compute_matches` actually returns.
pub proof fn lemma_result_map_entries(entries: Seq<(String, PoliticianMatch)>)
    ensures
        forall|k: Seq<char>|
            #[trigger] result_map(entries).contains_key(k) <==> (exists|i: int|
                0 <= i < entries.len() && (#[trigger] entries[i]).0@ == k),
        forall|i: int|
            0 <= i < entries.len() && (forall|j: int|
                i < j < entries.len() ==> (#[trigger] entries[j]).0@ != entries[i].0@)
                ==> result_map(entries)[(#[trigger] entries[i]).0@] == entries[i].1@,
{
    let vs = entry_views(entries);
    lemma_one_entry_per_candidate(vs);
    assert(forall|i: int|
        0 <= i < entries.len() ==> (#[trigger] vs[i]) == ((entries[i]).0@, (entries[i]).1@));
    assert forall|k: Seq<char>|
        #[trigger] result_map(entries).contains_key(k) implies (exists|i: int|
        0 <= i < entries.len() && (#[trigger] entries[i]).0@ == k) by {
        let i = choose|i: int| 0 <= i < vs.len() && (#[trigger] vs[i]).0 == k;
        assert((entries[i]).0@ == k);
    }
    assert forall|k: Seq<char>|
        (exists|i: int| 0 <= i < entries.len() && (#[trigger] entries[i]).0@ == k)
        implies #[trigger] result_map(entries).contains_key(k) by {
        let i = choose|i: int| 0 <= i < entries.len() && (#[trigger] entries[i]).0@ == k;
        assert((vs[i]).0 == k);
    }
    assert forall|i: int|
        0 <= i < entries.len() && (forall|j: int|
            i < j < entries.len() ==> (#[trigger] entries[j]).0@ != entries[i].0@)
        implies result_map(entries)[(#[trigger] entries[i]).0@] == entries[i].1@ by {
        assert forall|j: int| i < j < vs.len() implies (#[trigger] vs[j]).0 != vs[i].0 by {
            assert((entries[j]).0@ != (entries[i]).0@);
        }
        assert(map_of_entries(vs)[(vs[i]).0] == vs[i].1);
    }
}

/// Law: a candidate with no positions field at all has no percent,
/// whatever its other fields hold.
pub proof fn lemma_missing_positions_no_percent(
    pc: Option<int>,
    ans: Seq<i64>,
    c: CandidateView,
    qc: int,
)
    requires
        percent_ok(pc, ans, c, qc),
        c.positions is None,
    ensures
        pc is None,
{
}

/// Law: a candidate whose name is the empty string (or absent, or all
/// whitespace) has no percent, even when its positions are present and
/// valid.
pub proof fn lemma_empty_name_no_percent(pc: Option<int>, ans: Seq<i64>, c: CandidateView, qc: int)
    requires
        percent_ok(pc, ans, c, qc),
        crate::text::trimmed(crate::text::opt_label(c.name)).len() == 0,
    ensures
        pc is None,
{
}

/// Law: a percent that the similarity sums determine always lies in
/// [0, 100] and carries exactly two decimal places: in hundredths it is an
/// integer in [0, 10000].
pub proof fn lemma_percent_two_decimals(q: int, d: int, u: int, p: int)
    requires
        percent_matches(q, d, u, p),
    ensures
        0 <= q <= 10000,
{
}

/// The squared norms are sums of squares, so they are never negative.
proof fn lemma_sums_nonneg(ans: Seq<i64>, pos: Seq<Option<i64>>, n: int)
    ensures
        ans_sq_sum(ans, pos, n) >= 0,
        pos_sq_sum(ans, pos, n) >= 0,
    decreases n,
{
    if n > 0 {
        lemma_sums_nonneg(ans, pos, n - 1);
        if usable(pos, n - 1) {
            let a = ans[n - 1] as int;
            let pv = pval(pos, n - 1);
            assert(a * a >= 0 && pv * pv >= 0) by (nonlinear_arith);
        }
    }
}

/// When the positions equal the answers at every usable index, all three
/// sums coincide.
proof fn lemma_sums_when_identical(ans: Seq<i64>, pos: Seq<Option<i64>>, n: int)
    requires
        forall|i: int| 0 <= i < n && #[trigger] usable(pos, i) ==> pval(pos, i) == ans[i] as int,
    ensures
        dot_sum(ans, pos, n) == ans_sq_sum(ans, pos, n),
        pos_sq_sum(ans, pos, n) == ans_sq_sum(ans, pos, n),
    decreases n,
{
    if n > 0 {
        lemma_sums_when_identical(ans, pos, n - 1);
    }
}

/// When the positions are the exact negation of the answers at every usable
/// index, the dot product is the negated squared norm and the two squared
/// norms coincide.
proof fn lemma_sums_when_negated(ans: Seq<i64>, pos: Seq<Option<i64>>, n: int)
    requires
        forall|i: int| 0 <= i < n && #[trigger] usable(pos, i) ==> pval(pos, i) == -(ans[i] as int),
    ensures
        dot_sum(ans, pos, n) == -ans_sq_sum(ans, pos, n),
        pos_sq_sum(ans, pos, n) == ans_sq_sum(ans, pos, n),
    decreases n,
{
    if n > 0 {
        lemma_sums_when_negated(ans, pos, n - 1);
        if usable(pos, n - 1) {
            let a = ans[n - 1] as int;
            let pv = pval(pos, n - 1);
            assert(pv == -a);
            assert(a * pv == -(a * a) && pv * pv == a * a) by (nonlinear_arith)
                requires
                    pv == -a,
            ;
        }
    }
}

/// Law: a candidate whose positions are identical to the answers on every
/// comparable question scores 100.00% (10000 in hundredths), provided some
/// comparable answer is non-zero (else the score is undefined and the
/// percent absent).
pub proof fn lemma_identical_gives_full_match(
    ans: Seq<i64>,
    pos: Seq<Option<i64>>,
    n: int,
    q: int,
)
    requires
        forall|i: int| 0 <= i < n && #[trigger] usable(pos, i) ==> pval(pos, i) == ans[i] as int,
        ans_sq_sum(ans, pos, n) != 0,
        percent_matches(
            q,
            dot_sum(ans, pos, n),
            ans_sq_sum(ans, pos, n),
            pos_sq_sum(ans, pos, n),
        ),
    ensures
        q == 10000,
{
    lemma_sums_when_identical(ans, pos, n);
    lemma_sums_nonneg(ans, pos, n);
    let u = ans_sq_sum(ans, pos, n);
    assert(u > 0);
    assert(percent_matches(10000, u, u, u)) by {
        assert(lower_ok(5000, 10000 * u, u * u)) by {
            assert(9999 * 9999 * (u * u) <= (10000 * u) * (10000 * u)) by (nonlinear_arith)
                requires
                    u > 0,
            ;
            assert(le_mul_sqrt(2 * 5000 - 1, 10000 * u, u * u));
        }
    }
    lemma_percent_unique(q, 10000, u, u, u);
}

/// Law: a candidate whose positions are the exact negation of the answers on
/// every comparable question scores 0.00%, provided some comparable answer
/// is non-zero (else the score is undefined and the percent absent).
pub proof fn lemma_negated_gives_zero_match(ans: Seq<i64>, pos: Seq<Option<i64>>, n: int, q: int)
    requires
        forall|i: int| 0 <= i < n && #[trigger] usable(pos, i) ==> pval(pos, i) == -(ans[i] as int),
        ans_sq_sum(ans, pos, n) != 0,
        percent_matches(
            q,
            dot_sum(ans, pos, n),
            ans_sq_sum(ans, pos, n),
            pos_sq_sum(ans, pos, n),
        ),
    ensures
        q == 0,
{
    lemma_sums_when_negated(ans, pos, n);
    lemma_sums_nonneg(ans, pos, n);
    let u = ans_sq_sum(ans, pos, n);
    assert(u > 0);
    assert(percent_matches(0, -u, u, u)) by {
        assert(!lower_ok(0 - 5000 + 1, 10000 * (-u), u * u)) by {
            assert((10000 * (-u)) * (10000 * (-u)) > ((-9999) * (-9999)) * (u * u))
                by (nonlinear_arith)
                requires
                    u > 0,
            ;
            assert(2 * (0 - 5000 + 1) - 1 == -9999);
            assert(!le_mul_sqrt(-9999, 10000 * (-u), u * u));
        }
    }
    lemma_percent_unique(q, 0, -u, u, u);
}

/// Law: an eligible candidate whose positions are identical to the answers
/// on every comparable question is scored exactly 100.00%, provided some
/// comparable answer is non-zero.
pub proof fn lemma_identical_candidate_full_match(
    pc: Option<int>,
    ans: Seq<i64>,
    c: CandidateView,
    qc: int,
)
    requires
        percent_ok(pc, ans, c, qc),
        eligible(c),
        forall|i: int|
            0 <= i < qc && #[trigger] usable(cand_positions(c), i) ==> pval(cand_positions(c), i)
                == ans[i] as int,
        ans_sq_sum(ans, cand_positions(c), qc) != 0,
    ensures
        pc == Some(10000int),
{
    let pos = cand_positions(c);
    lemma_sums_when_identical(ans, pos, qc);
    let q = pc->0;
    lemma_identical_gives_full_match(ans, pos, qc, q);
}

/// Law: an eligible candidate whose positions are the exact negation of the
/// answers on every comparable question is scored exactly 0.00%, provided
/// some comparable answer is non-zero.
pub proof fn lemma_negated_candidate_zero_match(
    pc: Option<int>,
    ans: Seq<i64>,
    c: CandidateView,
    qc: int,
)
    requires
        percent_ok(pc, ans, c, qc),
        eligible(c),
        forall|i: int|
            0 <= i < qc && #[trigger] usable(cand_positions(c), i) ==> pval(cand_positions(c), i)
                == -(ans[i] as int),
        ans_sq_sum(ans, cand_positions(c), qc) != 0,
    ensures
        pc == Some(0int),
{
    let pos = cand_positions(c);
    lemma_sums_when_negated(ans, pos, qc);
    let q = pc->0;
    lemma_negated_gives_zero_match(ans, pos, qc, q);
}

} // verus!
