//! The input and output records of the matcher, and its error taxonomy.
//!
//! Values are fixed-point: an answer or position of `v` stands for the real
//! number `v / 10000`, and a percent of `q` stands for `q / 100` percent.

use vstd::prelude::*;

verus! {

/// One candidate as received: every field is optional, and a position entry
/// may be the explicit absence marker `None` ("did not answer this question"),
/// which is distinct from the sequence simply being shorter.
pub struct PoliticianJson {
    pub party: Option<String>,
    pub name: Option<String>,
    pub candidate_number: Option<String>,
    pub positions: Option<Vec<Option<i64>>>,
}

/// The mathematical value of a candidate record.
pub struct CandidateView {
    pub party: Option<Seq<char>>,
    pub name: Option<Seq<char>>,
    pub candidate_number: Option<Seq<char>>,
    pub positions: Option<Seq<Option<i64>>>,
}

impl View for PoliticianJson {
    type V = CandidateView;

    open spec fn view(&self) -> CandidateView {
        CandidateView {
            party: match self.party {
                Some(s) => Some(s@),
                None => None,
            },
            name: match self.name {
                Some(s) => Some(s@),
                None => None,
            },
            candidate_number: match self.candidate_number {
                Some(s) => Some(s@),
                None => None,
            },
            positions: match self.positions {
                Some(v) => Some(v@),
                None => None,
            },
        }
    }
}

/// One candidate's result: the trimmed labels and, when a score could be
/// computed, the percent in hundredths (10000 stands for 100.00%).
pub struct PoliticianMatch {
    pub party: String,
    pub name: String,
    pub candidate_number: String,
    pub percent: Option<i64>,
}

/// The mathematical value of a match result.
pub struct MatchView {
    pub party: Seq<char>,
    pub name: Seq<char>,
    pub candidate_number: Seq<char>,
    pub percent: Option<int>,
}

impl View for PoliticianMatch {
    type V = MatchView;

    open spec fn view(&self) -> MatchView {
        MatchView {
            party: self.party@,
            name: self.name@,
            candidate_number: self.candidate_number@,
            percent: match self.percent {
                Some(q) => Some(q as int),
                None => None,
            },
        }
    }
}

/// Why a whole computation was aborted. Per-candidate data problems are never
/// errors: they only make that one candidate's percent absent.
#[derive(Clone, Copy, PartialEq, Eq, Structural, Debug)]
pub enum MatchError {
    /// The payload does not have the expected shape (a boundary-layer error:
    /// raised where bytes are turned into records, before this library runs).
    MalformedInput,
    /// The answer count does not equal the expected question count.
    LengthMismatch { expected: usize, actual: usize },
    /// An answer value lies outside [-1, 1]; `index` names the offender.
    OutOfRangeAnswer { index: usize },
    /// The finished result could not be encoded for return (a boundary-layer
    /// error: raised where records are turned back into bytes).
    SerializationError,
}

} // verus!
