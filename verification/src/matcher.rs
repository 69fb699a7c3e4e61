//! The matching routine: validation of the answer vector, per-candidate key
//! derivation, and assembly of one result entry per candidate.

use vstd::prelude::*;
use vstd::string::StrSliceExecFns;
use crate::in_range;
use crate::value_in_range;
use crate::MAX_QUESTIONS;
use crate::records::CandidateView;
use crate::records::MatchError;
use crate::records::MatchView;
use crate::records::PoliticianJson;
use crate::records::PoliticianMatch;
use crate::score::ans_sq_sum;
use crate::score::candidate_percent;
use crate::score::dot_sum;
use crate::score::percent_matches;
use crate::score::pos_sq_sum;
use crate::text::index_key;
use crate::text::index_key_spec;
use crate::text::opt_label;
use crate::text::trim_opt;
use crate::text::trimmed;

verus! {

/// The expected question count: the one supplied, or the answer count.
pub open spec fn spec_question_count(ans: Seq<i64>, question_count: Option<usize>) -> int {
    match question_count {
        Some(q) => q as int,
        None => ans.len() as int,
    }
}

/// Every answer lies in [-1, 1].
pub open spec fn answers_in_range(ans: Seq<i64>) -> bool {
    forall|i: int| 0 <= i < ans.len() ==> in_range(#[trigger] ans[i])
}

/// The candidate's positions, or the empty sequence when absent.
pub open spec fn cand_positions(c: CandidateView) -> Seq<Option<i64>> {
    match c.positions {
        Some(p) => p,
        None => Seq::empty(),
    }
}

/// A candidate is scored only when its trimmed name is non-empty and it has
/// a positions field at all; otherwise its percent is absent.
pub open spec fn eligible(c: CandidateView) -> bool {
    trimmed(opt_label(c.name)).len() > 0 && c.positions is Some
}

/// The key a candidate is filed under: its trimmed number when non-empty,
/// else its trimmed name when non-empty, else the positional key `idx_<n>`.
pub open spec fn key_of(c: CandidateView, idx: int) -> Seq<char> {
    let num = trimmed(opt_label(c.candidate_number));
    let nm = trimmed(opt_label(c.name));
    if num.len() > 0 {
        num
    } else if nm.len() > 0 {
        nm
    } else {
        index_key_spec(idx as nat)
    }
}

/// What the percent field must be for one candidate: absent when the
/// candidate is ineligible or either squared norm over the overlap is zero,
/// and otherwise exactly the percent the similarity sums determine.
pub open spec fn percent_ok(pc: Option<int>, ans: Seq<i64>, c: CandidateView, qc: int) -> bool {
    if eligible(c) {
        let pos = cand_positions(c);
        if ans_sq_sum(ans, pos, qc) == 0 || pos_sq_sum(ans, pos, qc) == 0 {
            pc is None
        } else {
            pc matches Some(q) && percent_matches(
                q,
                dot_sum(ans, pos, qc),
                ans_sq_sum(ans, pos, qc),
                pos_sq_sum(ans, pos, qc),
            )
        }
    } else {
        pc is None
    }
}

/// What one result record must be for one candidate: the three labels
/// trimmed (absent ones as empty strings), and the percent as `percent_ok`
/// demands.
pub open spec fn match_ok(m: MatchView, ans: Seq<i64>, c: CandidateView, qc: int) -> bool {
    &&& m.party == trimmed(opt_label(c.party))
    &&& m.name == trimmed(opt_label(c.name))
    &&& m.candidate_number == trimmed(opt_label(c.candidate_number))
    &&& percent_ok(m.percent, ans, c, qc)
}

/// Builds the keyed result record for the candidate at `idx`.
pub fn process_candidate(answers: &Vec<i64>, p: &PoliticianJson, idx: usize, question_count: usize)
    -> (res: (String, PoliticianMatch))
    requires
        question_count == answers@.len(),
        answers@.len() <= MAX_QUESTIONS,
        answers_in_range(answers@),
    ensures
        res.0@ == key_of(p@, idx as int),
        match_ok(res.1@, answers@, p@, question_count as int),
{
    let party: String = trim_opt(&p.party);
    let name: String = trim_opt(&p.name);
    let number: String = trim_opt(&p.candidate_number);
    let key: String = if !number.as_str().is_empty() {
        number.clone()
    } else if !name.as_str().is_empty() {
        name.clone()
    } else {
        index_key(idx)
    };
    let percent: Option<i64> = if name.as_str().is_empty() {
        None
    } else {
        match &p.positions {
            Some(pos) => candidate_percent(answers, pos, question_count),
            None => None,
        }
    };
    (key, PoliticianMatch { party, name, candidate_number: number, percent })
}

/// Computes one result entry per candidate, keyed as `key_of` says.
///
/// Fails fast, before any per-candidate work: `LengthMismatch` when the
/// answer count differs from the expected question count (which defaults to
/// the answer count), and `OutOfRangeAnswer` naming the first index whose
/// answer lies outside [-1, 1]. Per-candidate data problems are not errors:
/// that candidate's percent is absent and the rest proceed.
pub fn compute_matches(
    answers: &Vec<i64>,
    politicians: &Vec<PoliticianJson>,
    question_count: Option<usize>,
) -> (result: Result<Vec<(String, PoliticianMatch)>, MatchError>)
    requires
        answers@.len() <= MAX_QUESTIONS,
    ensures
        match result {
            Ok(entries) => {
                &&& answers@.len() == spec_question_count(answers@, question_count)
                &&& answers_in_range(answers@)
                &&& entries@.len() == politicians@.len()
                &&& forall|i: int|
                    0 <= i < politicians@.len() ==> (#[trigger] entries@[i]).0@ == key_of(
                        politicians@[i]@,
                        i,
                    )
                &&& forall|i: int|
                    0 <= i < politicians@.len() ==> match_ok(
                        (#[trigger] entries@[i]).1@,
                        answers@,
                        politicians@[i]@,
                        answers@.len() as int,
                    )
            },
            Err(e) => match e {
                MatchError::LengthMismatch { expected, actual } => {
                    &&& expected as int == spec_question_count(answers@, question_count)
                    &&& actual == answers@.len()
                    &&& actual != expected
                },
                MatchError::OutOfRangeAnswer { index } => {
                    &&& answers@.len() == spec_question_count(answers@, question_count)
                    &&& 0 <= index < answers@.len()
                    &&& !in_range(answers@[index as int])
                    &&& forall|j: int| 0 <= j < index ==> in_range(#[trigger] answers@[j])
                },
                _ => false,
            },
        },
{
    let qc: usize = match question_count {
        Some(q) => q,
        None => answers.len(),
    };
    if answers.len() != qc {
        return Err(MatchError::LengthMismatch { expected: qc, actual: answers.len() });
    }
    let mut i: usize = 0;
    while i < answers.len()
        invariant
            0 <= i <= answers@.len(),
            answers@.len() == spec_question_count(answers@, question_count),
            forall|j: int| 0 <= j < i ==> in_range(#[trigger] answers@[j]),
        decreases answers@.len() - i,
    {
        if !value_in_range(answers[i]) {
            return Err(MatchError::OutOfRangeAnswer { index: i });
        }
        i = i + 1;
    }
    let mut entries: Vec<(String, PoliticianMatch)> = Vec::new();
    let mut idx: usize = 0;
    while idx < politicians.len()
        invariant
            0 <= idx <= politicians@.len(),
            entries@.len() == idx,
            qc == answers@.len(),
            answers@.len() == spec_question_count(answers@, question_count),
            answers@.len() <= MAX_QUESTIONS,
            answers_in_range(answers@),
            forall|k: int|
                0 <= k < idx ==> (#[trigger] entries@[k]).0@ == key_of(politicians@[k]@, k),
            forall|k: int|
                0 <= k < idx ==> match_ok(
                    (#[trigger] entries@[k]).1@,
                    answers@,
                    politicians@[k]@,
                    answers@.len() as int,
                ),
        decreases politicians@.len() - idx,
    {
        let entry: (String, PoliticianMatch) = process_candidate(
            answers,
            &politicians[idx],
            idx,
            qc,
        );
        entries.push(entry);
        idx = idx + 1;
    }
    Ok(entries)
}

} // verus!
