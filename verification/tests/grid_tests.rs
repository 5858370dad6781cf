use rv_curves::grid::{check_tau_range, tau_pairs, tau_triples};

/// Fixed-point encoding of a decay value, in millionths of a year.
fn tau_fp(x: f64) -> u64 {
    (x * 1_000_000.0).round() as u64
}

fn log_spaced(min: f64, max: f64, steps: usize) -> Vec<u64> {
    let ln_min = min.ln();
    let ln_max = max.ln();
    let step = (ln_max - ln_min) / (steps as f64 - 1.0);
    (0..steps).map(|i| tau_fp((ln_min + step * i as f64).exp())).collect()
}

#[test]
fn nssc_grid_enforces_order() {
    let taus = log_spaced(0.1, 10.0, 6);
    let grid = tau_triples(&taus, 1, 1);
    assert!(!grid.is_empty());
    for (i, j, k) in grid {
        assert!(taus[i] < taus[j] && taus[j] < taus[k]);
    }
}

#[test]
fn pair_grid_is_lexicographic_and_filtered() {
    // Values 1, 2, 4 with a minimum ratio of 1.5: every ordered pair
    // qualifies, in lexicographic order of the indices.
    let taus: Vec<u64> = vec![tau_fp(1.0), tau_fp(2.0), tau_fp(4.0)];
    let pairs = tau_pairs(&taus, 3, 2);
    assert_eq!(pairs, vec![(0, 1), (0, 2), (1, 2)]);

    // With a minimum ratio of 3, only the outermost pair survives.
    let sparse = tau_pairs(&taus, 3, 1);
    assert_eq!(sparse, vec![(0, 2)]);
}

#[test]
fn triple_grid_needs_two_separations() {
    // 1, 2, 4, 8 at ratio 2: every adjacent step doubles, so all four
    // increasing triples qualify.
    let taus: Vec<u64> = vec![tau_fp(1.0), tau_fp(2.0), tau_fp(4.0), tau_fp(8.0)];
    let triples = tau_triples(&taus, 2, 1);
    assert_eq!(triples, vec![(0, 1, 2), (0, 1, 3), (0, 2, 3), (1, 2, 3)]);

    // At ratio 4 only 1 -> 4 -> 16 style spacing would survive; here none.
    let none = tau_triples(&taus, 4, 1);
    assert!(none.is_empty());
}

#[test]
fn tau_range_validation() {
    assert!(check_tau_range(tau_fp(0.05), tau_fp(30.0), 2).is_ok());
    assert_eq!(check_tau_range(0, tau_fp(30.0), 5).unwrap_err().exit_code(), 2);
    assert_eq!(check_tau_range(tau_fp(2.0), tau_fp(1.0), 5).unwrap_err().exit_code(), 2);
    let err = check_tau_range(tau_fp(1.0), tau_fp(2.0), 1).unwrap_err();
    assert_eq!(err.exit_code(), 2);
    assert_eq!(err.message(), "Tau steps must be >= 2.");
}
