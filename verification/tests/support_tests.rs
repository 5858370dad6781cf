use rv_curves::args::{rewrite_args, str_eq};
use rv_curves::controls::{
    next_front_end_mode, next_model_spec, next_short_end_monotone, robust_kind_name,
};
use rv_curves::domain::{FrontEndMode, ModelSpec, RobustKind, ShortEndMonotone};
use rv_curves::plot::draw_line;
use rv_curves::robust::{floor_weights, refit_passes};
use rv_curves::text::{truncate, u64_string};

fn args(words: &[&str]) -> Vec<String> {
    words.iter().map(|w| w.to_string()).collect()
}

#[test]
fn rewrite_args_defaults_to_tui() {
    assert_eq!(rewrite_args(args(&["rv"])), args(&["rv", "tui"]));
    assert_eq!(
        rewrite_args(args(&["rv", "-f", "bonds.csv"])),
        args(&["rv", "tui", "-f", "bonds.csv"])
    );
}

#[test]
fn rewrite_args_keeps_explicit_invocations() {
    assert_eq!(rewrite_args(args(&["rv", "fit", "-f", "x.csv"])), args(&["rv", "fit", "-f", "x.csv"]));
    assert_eq!(rewrite_args(args(&["rv", "--help"])), args(&["rv", "--help"]));
    assert_eq!(rewrite_args(args(&["rv", "plot"])), args(&["rv", "plot"]));
    assert_eq!(rewrite_args(args(&["rv", "bonds.csv"])), args(&["rv", "bonds.csv"]));
}

#[test]
fn str_eq_is_exact() {
    assert!(str_eq("fit", "fit"));
    assert!(!str_eq("fit", "fi"));
    assert!(!str_eq("fit", "fib"));
    assert!(str_eq("", ""));
}

#[test]
fn decimal_rendering() {
    assert_eq!(u64_string(0), "0");
    assert_eq!(u64_string(7), "7");
    assert_eq!(u64_string(1234), "1234");
    assert_eq!(u64_string(u64::MAX), "18446744073709551615");
}

#[test]
fn truncate_limits_width() {
    assert_eq!(truncate("short", 10), "short");
    assert_eq!(truncate("exactly8", 8), "exactly8");
    assert_eq!(truncate("abcdefgh", 4), "abc…");
    assert_eq!(truncate("ab", 0), "…");
}

#[test]
fn robust_weight_floor_holds() {
    let base: Vec<u64> = vec![5_000_000, 1_000_000, 250];
    // Factors: crushed to zero, untouched, and halved.
    let factors: Vec<u64> = vec![0, 1_000_000, 500_000];
    let w = floor_weights(&base, &factors);
    // The zero factor is floored at one thousandth of the base weight.
    assert_eq!(w, vec![5_000, 1_000_000, 125]);
    for i in 0..base.len() {
        assert!(w[i] >= base[i] / 1000);
        assert!(w[i] <= base[i]);
    }
}

#[test]
fn refit_pass_counts() {
    assert_eq!(refit_passes(RobustKind::Off, 7), 1);
    assert_eq!(refit_passes(RobustKind::Huber, 0), 1);
    assert_eq!(refit_passes(RobustKind::Huber, 2), 3);
}

#[test]
fn control_cycles() {
    assert_eq!(next_model_spec(ModelSpec::Auto), ModelSpec::Ns);
    assert_eq!(next_model_spec(ModelSpec::Nssc), ModelSpec::Auto);
    assert_eq!(next_model_spec(ModelSpec::All), ModelSpec::Auto);
    assert_eq!(next_front_end_mode(FrontEndMode::Off), FrontEndMode::Auto);
    assert_eq!(next_front_end_mode(FrontEndMode::Fixed), FrontEndMode::Off);
    assert_eq!(next_short_end_monotone(ShortEndMonotone::Off), ShortEndMonotone::Increasing);
    assert_eq!(next_short_end_monotone(ShortEndMonotone::Decreasing), ShortEndMonotone::Auto);
    assert_eq!(robust_kind_name(RobustKind::Off), "none");
    assert_eq!(robust_kind_name(RobustKind::Huber), "huber");
}

#[test]
fn draw_line_fills_blank_cells_only() {
    let width = 10;
    let height = 5;
    let mut cells: Vec<char> = vec![' '; width * height];
    // An existing observation marker must survive the line.
    cells[4 * width + 3] = 'o';
    draw_line(&mut cells, width, height, 0, 4, 9, 4, '-');
    let bottom: String = cells[4 * width..5 * width].iter().collect();
    assert_eq!(bottom, "---o------");
    // Rows the segment never touches stay blank.
    let top: String = cells[0..width].iter().collect();
    assert_eq!(top, "          ");
}

#[test]
fn draw_line_diagonal_reaches_both_ends() {
    let width = 4;
    let height = 4;
    let mut cells: Vec<char> = vec![' '; width * height];
    draw_line(&mut cells, width, height, 0, 0, 3, 3, '*');
    assert_eq!(cells[0], '*');
    assert_eq!(cells[3 * width + 3], '*');
    for r in 0..4 {
        assert_eq!(cells[r * width + r], '*');
    }
}
