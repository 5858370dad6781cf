use rv_curves::domain::{BondMeta, ModelKind, RatingBand, ShortEndMonotone, YKind};
use rv_curves::candidate::{resolved_direction, MonotoneDir};
use rv_curves::error::AppError;

#[test]
fn model_parameter_counts() {
    assert_eq!(ModelKind::Ns.beta_len(), 3);
    assert_eq!(ModelKind::Nss.beta_len(), 4);
    assert_eq!(ModelKind::Nssc.beta_len(), 5);
    assert_eq!(ModelKind::Ns.tau_len(), 1);
    assert_eq!(ModelKind::Nss.tau_len(), 2);
    assert_eq!(ModelKind::Nssc.tau_len(), 3);
    assert_eq!(ModelKind::Ns.param_count(), 4);
    assert_eq!(ModelKind::Nss.param_count(), 6);
    assert_eq!(ModelKind::Nssc.param_count(), 8);
}

#[test]
fn model_display_names() {
    assert_eq!(ModelKind::Ns.display_name(), "NS");
    assert_eq!(ModelKind::Nss.display_name(), "NSS");
    assert_eq!(ModelKind::Nssc.display_name(), "NSS+ (3-hump)");
}

#[test]
fn rating_band_labels() {
    assert_eq!(RatingBand::BBB.series_id(), "BAMLC0A4CBBB");
    assert_eq!(RatingBand::CCC.series_id(), "BAMLH0A3HYC");
    assert_eq!(RatingBand::AA.display_name(), "AA");
    assert_eq!(YKind::Oas.unit_label(), "bp");
}

#[test]
fn bond_meta_defaults_to_empty() {
    let meta = BondMeta::default();
    assert!(meta.issuer.is_none());
    assert!(meta.rating.is_none());
}

#[test]
fn app_error_carries_code_and_message() {
    let e = AppError::new(4, String::from("Non-finite model prediction."));
    assert_eq!(e.exit_code(), 4);
    assert_eq!(e.message(), "Non-finite model prediction.");
}

#[test]
fn monotone_direction_resolution() {
    assert_eq!(resolved_direction(ShortEndMonotone::Off, Some(true)), None);
    assert_eq!(
        resolved_direction(ShortEndMonotone::Increasing, None),
        Some(MonotoneDir::Increasing)
    );
    assert_eq!(
        resolved_direction(ShortEndMonotone::Decreasing, Some(true)),
        Some(MonotoneDir::Decreasing)
    );
    assert_eq!(
        resolved_direction(ShortEndMonotone::Auto, Some(true)),
        Some(MonotoneDir::Increasing)
    );
    assert_eq!(
        resolved_direction(ShortEndMonotone::Auto, Some(false)),
        Some(MonotoneDir::Decreasing)
    );
    assert_eq!(resolved_direction(ShortEndMonotone::Auto, None), None);
}
