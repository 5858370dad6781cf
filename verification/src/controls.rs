//! Cycling rules for interactive front-ends: each keystroke advances one
//! configuration knob to its next setting.

use vstd::prelude::*;
use crate::domain::{FrontEndMode, ModelSpec, RobustKind, ShortEndMonotone};

verus! {

/// Next model specification in the cycle; the legacy `All` setting
/// folds back to `Auto`.
pub fn next_model_spec(cur: ModelSpec) -> (r: ModelSpec)
    ensures
        cur is Auto ==> r is Ns,
        cur is Ns ==> r is Nss,
        cur is Nss ==> r is Nssc,
        cur is Nssc ==> r is Auto,
        cur is All ==> r is Auto,
{
    match cur {
        ModelSpec::Auto => ModelSpec::Ns,
        ModelSpec::Ns => ModelSpec::Nss,
        ModelSpec::Nss => ModelSpec::Nssc,
        ModelSpec::Nssc => ModelSpec::Auto,
        ModelSpec::All => ModelSpec::Auto,
    }
}

/// Next front-end conditioning mode; the explicit `Fixed` setting has no
/// keyboard successor other than `Off`.
pub fn next_front_end_mode(cur: FrontEndMode) -> (r: FrontEndMode)
    ensures
        cur is Off ==> r is Auto,
        cur is Auto ==> r is Zero,
        cur is Zero ==> r is Off,
        cur is Fixed ==> r is Off,
{
    match cur {
        FrontEndMode::Off => FrontEndMode::Auto,
        FrontEndMode::Auto => FrontEndMode::Zero,
        FrontEndMode::Zero => FrontEndMode::Off,
        FrontEndMode::Fixed => FrontEndMode::Off,
    }
}

/// Next short-end monotonicity setting.
pub fn next_short_end_monotone(cur: ShortEndMonotone) -> (r: ShortEndMonotone)
    ensures
        cur is Auto ==> r is Off,
        cur is Off ==> r is Increasing,
        cur is Increasing ==> r is Decreasing,
        cur is Decreasing ==> r is Auto,
{
    match cur {
        ShortEndMonotone::Auto => ShortEndMonotone::Off,
        ShortEndMonotone::Off => ShortEndMonotone::Increasing,
        ShortEndMonotone::Increasing => ShortEndMonotone::Decreasing,
        ShortEndMonotone::Decreasing => ShortEndMonotone::Auto,
    }
}

/// Status label of the robust mode.
pub fn robust_kind_name(kind: RobustKind) -> (r: &'static str)
    ensures
        kind is Off ==> r@ == "none"@,
        kind is Huber ==> r@ == "huber"@,
{
    match kind {
        RobustKind::Off => "none",
        RobustKind::Huber => "huber",
    }
}

} // verus!
