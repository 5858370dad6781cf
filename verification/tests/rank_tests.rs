use rv_curves::candidate::{best_candidate, CandidateScore};
use rv_curves::rank::{median_pair, rank_cheap_rich, short_end_bucket};

/// Order key of a finite f64: preserves the numeric order.
fn res_key(x: f64) -> u64 {
    let b = x.to_bits();
    if b & (1 << 63) != 0 {
        !b
    } else {
        b | (1 << 63)
    }
}

#[test]
fn rank_orders_cheap_and_rich() {
    let residuals = [1.0, -2.0, 3.0, 3.0, 0.0];
    let keys: Vec<u64> = residuals.iter().map(|&r| res_key(r)).collect();
    let ranks = rank_cheap_rich(&keys, 2);
    // Cheap: largest residuals first, the tie at 3.0 resolved by index.
    assert_eq!(ranks.cheap, vec![2, 3]);
    // Rich: most negative first.
    assert_eq!(ranks.rich, vec![1, 4]);
}

#[test]
fn rank_with_large_top_n_lists_everything() {
    let keys: Vec<u64> = vec![5, 1, 9];
    let ranks = rank_cheap_rich(&keys, 10);
    assert_eq!(ranks.cheap, vec![2, 0, 1]);
    assert_eq!(ranks.rich, vec![1, 0, 2]);
}

#[test]
fn rank_of_empty_list_is_empty() {
    let keys: Vec<u64> = Vec::new();
    let ranks = rank_cheap_rich(&keys, 3);
    assert!(ranks.cheap.is_empty());
    assert!(ranks.rich.is_empty());
}

#[test]
fn median_of_odd_count() {
    let keys: Vec<u64> = vec![5, 1, 3];
    assert_eq!(median_pair(&keys), Some((3, 3)));
}

#[test]
fn median_of_even_count() {
    let keys: Vec<u64> = vec![4, 1, 3, 2];
    assert_eq!(median_pair(&keys), Some((2, 3)));
}

#[test]
fn median_of_empty_is_none() {
    let keys: Vec<u64> = Vec::new();
    assert_eq!(median_pair(&keys), None);
}

#[test]
fn short_end_bucket_uses_window_when_populated() {
    // Tenor keys: positions 0, 2, 3 lie inside the window.
    let keys: Vec<u64> = vec![10, 300, 20, 15, 400];
    assert_eq!(short_end_bucket(&keys, 100), vec![0, 2, 3]);
}

#[test]
fn short_end_bucket_falls_back_to_shortest_five() {
    // Only two inside the window: take the five shortest tenors instead.
    let keys: Vec<u64> = vec![10, 300, 20, 500, 400, 250, 600];
    assert_eq!(short_end_bucket(&keys, 100), vec![0, 2, 5, 1, 4]);
}

#[test]
fn best_candidate_breaks_ties_by_grid_index() {
    let cands = vec![
        CandidateScore { grid_idx: 7, sse_key: 50 },
        CandidateScore { grid_idx: 3, sse_key: 50 },
        CandidateScore { grid_idx: 9, sse_key: 80 },
    ];
    let p = best_candidate(&cands).unwrap();
    assert_eq!(cands[p].grid_idx, 3);
}

#[test]
fn best_candidate_of_empty_is_none() {
    let cands: Vec<CandidateScore> = Vec::new();
    assert_eq!(best_candidate(&cands), None);
}

#[test]
fn best_candidate_ignores_arrival_order() {
    // The same surviving candidates in two different arrival orders
    // produce the same winning score.
    let a = vec![
        CandidateScore { grid_idx: 4, sse_key: 60 },
        CandidateScore { grid_idx: 1, sse_key: 55 },
        CandidateScore { grid_idx: 2, sse_key: 55 },
    ];
    let b = vec![
        CandidateScore { grid_idx: 2, sse_key: 55 },
        CandidateScore { grid_idx: 1, sse_key: 55 },
        CandidateScore { grid_idx: 4, sse_key: 60 },
    ];
    let pa = best_candidate(&a).unwrap();
    let pb = best_candidate(&b).unwrap();
    assert_eq!(a[pa], b[pb]);
}
