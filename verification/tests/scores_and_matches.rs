use directory_pickers::matching::{best_match, is_listed_before, listing, StringMatch};
use directory_pickers::score::Score;
use ordered_float::OrderedFloat;

fn score(value: f64) -> Score {
    Score { bits: value.to_bits() }
}

fn found(candidate_id: usize, value: f64) -> StringMatch {
    StringMatch {
        candidate_id,
        score: score(value),
        positions: vec![candidate_id],
        string: format!("{}", candidate_id),
    }
}

fn values() -> Vec<f64> {
    vec![
        0.0,
        -0.0,
        1.0,
        -1.0,
        0.5,
        0.1,
        1e300,
        -1e300,
        5e-324,
        -5e-324,
        f64::INFINITY,
        f64::NEG_INFINITY,
        f64::NAN,
        -f64::NAN,
        f64::MAX,
        f64::MIN,
        f64::MIN_POSITIVE,
    ]
}

#[test]
fn scores_compare_as_numbers() {
    for a in values() {
        assert_eq!(score(a).is_nan(), a.is_nan());
        for b in values() {
            assert_eq!(score(a).is_less(score(b)), a < b, "{} {}", a, b);
            let below = OrderedFloat(a) < OrderedFloat(b);
            assert_eq!(score(a).is_below(score(b)), below, "{} {}", a, b);
        }
    }
}

#[test]
fn best_match_is_the_first_of_the_greatest() {
    let all = values();
    for skip in 0..all.len() {
        let tail: Vec<f64> = all[skip..].to_vec();
        let expected = tail
            .iter()
            .enumerate()
            .rev()
            .max_by_key(|(_, v)| OrderedFloat(**v))
            .map(|(ix, _)| ix)
            .unwrap_or(0);
        let matches: Vec<StringMatch> =
            tail.iter().enumerate().map(|(id, v)| found(id, *v)).collect();
        assert_eq!(best_match(&matches), expected);
    }
    assert_eq!(best_match(&vec![]), 0);
}

#[test]
fn listing_puts_high_scores_first_and_breaks_ties_by_number() {
    let listed = listing(vec![
        found(4, 0.5),
        found(0, 0.25),
        found(3, -0.0),
        found(2, 0.5),
        found(1, 0.0),
        found(5, 2.0),
    ]);
    let ids: Vec<usize> = listed.iter().map(|m| m.candidate_id).collect();
    assert_eq!(ids, vec![5, 2, 4, 0, 1, 3]);
    assert_eq!(listed[0].string, "5");
    assert_eq!(listed[0].positions, vec![5]);
    assert_eq!(best_match(&listed), 0);
    assert!(listing(vec![]).is_empty());
}

#[test]
fn listing_is_that_of_a_sort() {
    let mut numbers: Vec<f64> = values();
    numbers.retain(|v| !v.is_nan());
    let mut expected: Vec<(f64, usize)> =
        numbers.iter().enumerate().map(|(id, v)| (*v, id)).collect();
    expected.sort_by(|a, b| b.0.partial_cmp(&a.0).unwrap().then_with(|| a.1.cmp(&b.1)));
    let listed = listing(numbers.iter().enumerate().map(|(id, v)| found(id, *v)).collect());
    let ids: Vec<usize> = listed.iter().map(|m| m.candidate_id).collect();
    let expected_ids: Vec<usize> = expected.iter().map(|e| e.1).collect();
    assert_eq!(ids, expected_ids);
}

#[test]
fn listing_does_not_depend_on_the_order_of_the_matches() {
    let scores = [0.5, 0.25, 0.5, 1.0];
    let mut orders: Vec<Vec<usize>> = Vec::new();
    for start in 0..scores.len() {
        let matches = (0..scores.len())
            .map(|i| (i + start) % scores.len())
            .map(|id| found(id, scores[id]))
            .collect();
        orders.push(listing(matches).iter().map(|m| m.candidate_id).collect());
    }
    for order in orders {
        assert_eq!(order, vec![3, 0, 2, 1]);
    }
}

#[test]
fn listing_keeps_what_has_no_number() {
    let listed = listing(vec![found(0, f64::NAN), found(1, 1.0), found(2, f64::NAN)]);
    let mut ids: Vec<usize> = listed.iter().map(|m| m.candidate_id).collect();
    ids.sort();
    assert_eq!(ids, vec![0, 1, 2]);
    assert!(is_listed_before(&found(0, f64::NAN), &found(1, 1.0)));
    assert!(!is_listed_before(&found(1, 1.0), &found(0, f64::NAN)));
}
