use matcher::matcher::compute_matches;
use matcher::records::MatchError;
use matcher::records::PoliticianJson;
use matcher::records::PoliticianMatch;

fn candidate(name: &str, positions: Vec<Option<i64>>) -> PoliticianJson {
    PoliticianJson {
        party: None,
        name: Some(name.to_string()),
        candidate_number: None,
        positions: Some(positions),
    }
}

fn run(
    answers: Vec<i64>,
    politicians: Vec<PoliticianJson>,
    question_count: Option<usize>,
) -> Vec<(String, PoliticianMatch)> {
    compute_matches(&answers, &politicians, question_count).unwrap()
}

#[test]
fn identical_positions_full_match() {
    let entries = run(
        vec![10000, -10000, 5000],
        vec![candidate("A", vec![Some(10000), Some(-10000), Some(5000)])],
        Some(3),
    );
    assert_eq!(entries.len(), 1);
    assert_eq!(entries[0].0, "A");
    assert_eq!(entries[0].1.percent, Some(10000));
}

#[test]
fn negated_positions_zero_match() {
    let entries = run(
        vec![10000, -10000, 5000],
        vec![candidate("B", vec![Some(-10000), Some(10000), Some(-5000)])],
        Some(3),
    );
    assert_eq!(entries[0].1.percent, Some(0));
}

#[test]
fn all_null_positions_no_percent() {
    let entries = run(
        vec![10000, -10000, 5000],
        vec![candidate("C", vec![None, None, None])],
        Some(3),
    );
    assert_eq!(entries[0].1.percent, None);
    assert_eq!(entries[0].1.name, "C");
}

#[test]
fn empty_name_no_percent() {
    let entries = run(
        vec![10000, -10000, 5000],
        vec![candidate("", vec![Some(10000), Some(-10000), Some(5000)])],
        Some(3),
    );
    assert_eq!(entries[0].1.percent, None);
    assert_eq!(entries[0].0, "idx_0");
}

#[test]
fn whitespace_name_no_percent() {
    let entries = run(
        vec![10000],
        vec![candidate("  \t ", vec![Some(10000)])],
        None,
    );
    assert_eq!(entries[0].1.percent, None);
    assert_eq!(entries[0].1.name, "");
}

#[test]
fn absent_name_no_percent() {
    let p = PoliticianJson {
        party: Some("P".to_string()),
        name: None,
        candidate_number: None,
        positions: Some(vec![Some(10000)]),
    };
    let entries = run(vec![10000], vec![p], None);
    assert_eq!(entries[0].1.percent, None);
    assert_eq!(entries[0].1.name, "");
    assert_eq!(entries[0].1.party, "P");
}

#[test]
fn missing_positions_no_percent() {
    let p = PoliticianJson {
        party: Some("Greens".to_string()),
        name: Some("D".to_string()),
        candidate_number: Some("42".to_string()),
        positions: None,
    };
    let entries = run(vec![10000, -10000, 5000], vec![p], Some(3));
    assert_eq!(entries[0].1.percent, None);
    assert_eq!(entries[0].0, "42");
    assert_eq!(entries[0].1.party, "Greens");
    assert_eq!(entries[0].1.name, "D");
    assert_eq!(entries[0].1.candidate_number, "42");
}

#[test]
fn length_mismatch_error() {
    let r = compute_matches(
        &vec![10000, -10000],
        &vec![candidate("A", vec![Some(10000)])],
        Some(3),
    );
    assert_eq!(r.err(), Some(MatchError::LengthMismatch { expected: 3, actual: 2 }));
}

#[test]
fn out_of_range_answer_error() {
    let r = compute_matches(&vec![20000], &vec![], None);
    assert_eq!(r.err(), Some(MatchError::OutOfRangeAnswer { index: 0 }));
}

#[test]
fn out_of_range_answer_names_first_bad_index() {
    let r = compute_matches(&vec![0, 10001, -20000], &vec![], None);
    assert_eq!(r.err(), Some(MatchError::OutOfRangeAnswer { index: 1 }));
}

#[test]
fn boundary_answers_accepted() {
    let entries = run(
        vec![10000, -10000, 0],
        vec![candidate("E", vec![Some(10000), Some(-10000), Some(0)])],
        None,
    );
    assert_eq!(entries[0].1.percent, Some(10000));
}

#[test]
fn key_prefers_candidate_number() {
    let p = PoliticianJson {
        party: None,
        name: Some("Name".to_string()),
        candidate_number: Some(" 7 ".to_string()),
        positions: None,
    };
    let entries = run(vec![10000], vec![p], None);
    assert_eq!(entries[0].0, "7");
    assert_eq!(entries[0].1.candidate_number, "7");
}

#[test]
fn key_falls_back_to_name_then_index() {
    let a = PoliticianJson {
        party: None,
        name: Some(" A ".to_string()),
        candidate_number: Some("  ".to_string()),
        positions: None,
    };
    let b = PoliticianJson {
        party: None,
        name: None,
        candidate_number: None,
        positions: None,
    };
    let entries = run(vec![10000], vec![a, b], None);
    assert_eq!(entries[0].0, "A");
    assert_eq!(entries[0].1.name, "A");
    assert_eq!(entries[1].0, "idx_1");
}

#[test]
fn one_entry_per_candidate_with_collisions() {
    let first = candidate("Same", vec![Some(10000)]);
    let second = candidate("Same", vec![Some(-10000)]);
    let third = candidate("Other", vec![Some(10000)]);
    let entries = run(vec![10000], vec![first, second, third], None);
    assert_eq!(entries.len(), 3);
    assert_eq!(entries[0].0, "Same");
    assert_eq!(entries[1].0, "Same");
    assert_eq!(entries[2].0, "Other");
    // Filed into a mapping in input order, the later "Same" wins.
    assert_eq!(entries[0].1.percent, Some(10000));
    assert_eq!(entries[1].1.percent, Some(0));
}

#[test]
fn orthogonal_positions_fifty_percent() {
    let entries = run(
        vec![10000, 10000],
        vec![candidate("F", vec![Some(10000), Some(-10000)])],
        None,
    );
    assert_eq!(entries[0].1.percent, Some(5000));
}

#[test]
fn rounding_two_decimals() {
    // score = 1/sqrt(2): percent = (1/sqrt(2) + 1) * 50 = 85.3553... -> 85.36
    let entries = run(
        vec![10000, 0],
        vec![candidate("G", vec![Some(10000), Some(10000)])],
        None,
    );
    assert_eq!(entries[0].1.percent, Some(8536));
}

#[test]
fn percent_within_bounds() {
    let answers = vec![10000, -2500, 0, 7500];
    let cands = vec![
        candidate("H", vec![Some(-3300), Some(10000), Some(1), Some(-9999)]),
        candidate("I", vec![Some(1), Some(2), Some(3), Some(4)]),
    ];
    let entries = run(answers, cands, None);
    for e in &entries {
        if let Some(q) = e.1.percent {
            assert!((0..=10000).contains(&q));
        }
    }
}

#[test]
fn short_positions_use_overlap_only() {
    // Only index 0 is comparable; there the position equals the answer.
    let entries = run(
        vec![10000, -10000, 5000],
        vec![candidate("J", vec![Some(10000)])],
        Some(3),
    );
    assert_eq!(entries[0].1.percent, Some(10000));
}

#[test]
fn out_of_range_positions_skipped_silently() {
    // Index 0 is out of range and index 2 is null: only index 1 counts,
    // where the position is the negation of the answer.
    let entries = run(
        vec![10000, -10000, 5000],
        vec![candidate("K", vec![Some(20000), Some(10000), None])],
        Some(3),
    );
    assert_eq!(entries[0].1.percent, Some(0));
}

#[test]
fn zero_norm_overlap_no_percent() {
    // The only comparable answer is 0, so the answer norm is degenerate.
    let entries = run(
        vec![0, 10000],
        vec![candidate("L", vec![Some(10000), None])],
        None,
    );
    assert_eq!(entries[0].1.percent, None);
}

#[test]
fn empty_positions_no_overlap() {
    let entries = run(
        vec![10000, -10000],
        vec![candidate("M", vec![])],
        None,
    );
    assert_eq!(entries[0].1.percent, None);
}

#[test]
fn no_candidates_ok() {
    let entries = run(vec![10000], vec![], None);
    assert!(entries.is_empty());
}

#[test]
fn question_count_defaults_to_answer_length() {
    let r = compute_matches(&vec![10000, 0], &vec![], None);
    assert!(r.is_ok());
}

#[test]
fn zero_questions_gives_no_percent() {
    let entries = run(vec![], vec![candidate("N", vec![Some(10000)])], Some(0));
    assert_eq!(entries[0].1.percent, None);
}

#[test]
fn index_key_writes_decimal() {
    assert_eq!(matcher::text::index_key(0), "idx_0");
    assert_eq!(matcher::text::index_key(9), "idx_9");
    assert_eq!(matcher::text::index_key(10), "idx_10");
    assert_eq!(matcher::text::index_key(907), "idx_907");
}

#[test]
fn unicode_whitespace_trimmed() {
    let p = PoliticianJson {
        party: Some("\u{00A0}Left\u{3000}".to_string()),
        name: Some("\u{2009}O\u{2028}".to_string()),
        candidate_number: None,
        positions: None,
    };
    let entries = run(vec![10000], vec![p], None);
    assert_eq!(entries[0].1.party, "Left");
    assert_eq!(entries[0].1.name, "O");
    assert_eq!(entries[0].0, "O");
}
