use rv_curves::domain::{ModelKind, ModelSpec};
use rv_curves::selection::{plan_orders, select_by_bic, select_fit, FitScore, SkipReason};

/// Order key of a finite f64: preserves the numeric order.
fn bic_key(x: f64) -> i64 {
    let b = x.to_bits() as i64;
    if b < 0 {
        b ^ 0x7fff_ffff_ffff_ffff
    } else {
        b
    }
}

fn score(kind: ModelKind, bic: f64) -> FitScore {
    FitScore { kind, bic_key: bic_key(bic), bic_plus2_key: bic_key(bic + 2.0) }
}

#[test]
fn bic_prefers_simpler_when_close() {
    let fits = vec![score(ModelKind::Ns, 10.0), score(ModelKind::Nss, 11.5)];
    let chosen = select_by_bic(&fits);
    assert_eq!(fits[chosen].kind, ModelKind::Ns);
}

#[test]
fn bic_prefers_simpler_even_when_complex_is_lower() {
    // NSS has the lower criterion, but NS lies within two points of it.
    let fits = vec![score(ModelKind::Ns, 11.5), score(ModelKind::Nss, 10.0)];
    let chosen = select_by_bic(&fits);
    assert_eq!(fits[chosen].kind, ModelKind::Ns);
}

#[test]
fn bic_picks_complex_when_far_ahead() {
    let fits = vec![score(ModelKind::Ns, 20.0), score(ModelKind::Nss, 10.0)];
    let chosen = select_by_bic(&fits);
    assert_eq!(fits[chosen].kind, ModelKind::Nss);
}

#[test]
fn bic_exact_tolerance_boundary() {
    // Exactly two points apart still counts as "within".
    let fits = vec![score(ModelKind::Ns, 12.0), score(ModelKind::Nss, 10.0)];
    let chosen = select_by_bic(&fits);
    assert_eq!(fits[chosen].kind, ModelKind::Ns);
}

#[test]
fn fit_and_select_skips_underdetermined() {
    // Five observations cannot support any order (NS already needs nine).
    let (attempt, skipped) = plan_orders(ModelSpec::Auto, 5);
    assert!(attempt.is_empty());
    assert_eq!(skipped.len(), 3);
    let fits: Vec<FitScore> = Vec::new();
    let err = select_fit(ModelSpec::Auto, &fits).unwrap_err();
    assert_eq!(err.exit_code(), 3);
    assert_eq!(err.message(), "Insufficient data to fit any model after guardrails.");
}

#[test]
fn underdetermined_nssc_is_skipped_with_reason() {
    // Eight observations: NSS+ needs k + 5 = 13, the others are not
    // attempted either (NS needs 9, NSS needs 11).
    let (attempt, skipped) = plan_orders(ModelSpec::Auto, 11);
    assert_eq!(attempt, vec![ModelKind::Ns, ModelKind::Nss]);
    assert_eq!(skipped.len(), 1);
    let (kind, reason) = skipped[0];
    assert_eq!(kind, ModelKind::Nssc);
    assert_eq!(reason, SkipReason::Underdetermined { n: 11, needed: 13 });

    let (attempt8, skipped8) = plan_orders(ModelSpec::Auto, 8);
    assert!(attempt8.is_empty());
    let msg = skipped8[2].1.message();
    assert_eq!(msg, "Underdetermined: n=8 < k+5=13");

    // The selector then settles the remaining orders as usual.
    let fits = vec![score(ModelKind::Ns, 50.0), score(ModelKind::Nss, 30.0)];
    let chosen = select_fit(ModelSpec::Auto, &fits).unwrap();
    assert_eq!(fits[chosen].kind, ModelKind::Nss);
}

#[test]
fn single_order_request_returns_first_fit() {
    let fits = vec![score(ModelKind::Nss, 42.0)];
    let chosen = select_fit(ModelSpec::Nss, &fits).unwrap();
    assert_eq!(chosen, 0);
}

#[test]
fn plan_orders_single_kind() {
    let (attempt, skipped) = plan_orders(ModelSpec::Nssc, 13);
    assert_eq!(attempt, vec![ModelKind::Nssc]);
    assert!(skipped.is_empty());
}
