//! Domain types of the curve fitter: model orders, configuration enums,
//! and observation metadata.

use vstd::prelude::*;

verus! {

/// Rating bands for which baseline option-adjusted-spread curves exist.
#[derive(Debug, Clone, Copy, PartialEq, Eq, Hash, Structural)]
pub enum RatingBand {
    AAA,
    AA,
    A,
    BBB,
    BB,
    B,
    CCC,
}

impl RatingBand {
    /// Identifier of the public data series that carries this band's
    /// option-adjusted-spread index.
    pub fn series_id(self) -> (r: &'static str)
        ensures
            r@ == self.series_id_spec(),
    {
        match self {
            RatingBand::AAA => "BAMLC0A1CAAA",
            RatingBand::AA => "BAMLC0A2CAA",
            RatingBand::A => "BAMLC0A3CA",
            RatingBand::BBB => "BAMLC0A4CBBB",
            RatingBand::BB => "BAMLH0A1HYBB",
            RatingBand::B => "BAMLH0A2HYB",
            RatingBand::CCC => "BAMLH0A3HYC",
        }
    }

    pub open spec fn series_id_spec(self) -> Seq<char> {
        match self {
            RatingBand::AAA => "BAMLC0A1CAAA"@,
            RatingBand::AA => "BAMLC0A2CAA"@,
            RatingBand::A => "BAMLC0A3CA"@,
            RatingBand::BBB => "BAMLC0A4CBBB"@,
            RatingBand::BB => "BAMLH0A1HYBB"@,
            RatingBand::B => "BAMLH0A2HYB"@,
            RatingBand::CCC => "BAMLH0A3HYC"@,
        }
    }

    /// Human-readable display name.
    pub fn display_name(self) -> (r: &'static str)
        ensures
            r@ == self.display_name_spec(),
    {
        match self {
            RatingBand::AAA => "AAA",
            RatingBand::AA => "AA",
            RatingBand::A => "A",
            RatingBand::BBB => "BBB",
            RatingBand::BB => "BB",
            RatingBand::B => "B",
            RatingBand::CCC => "CCC",
        }
    }

    pub open spec fn display_name_spec(self) -> Seq<char> {
        match self {
            RatingBand::AAA => "AAA"@,
            RatingBand::AA => "AA"@,
            RatingBand::A => "A"@,
            RatingBand::BBB => "BBB"@,
            RatingBand::BB => "BB"@,
            RatingBand::B => "B"@,
            RatingBand::CCC => "CCC"@,
        }
    }
}

/// Kind of observed value being fitted. The core is unit-agnostic; this
/// only labels outputs.
#[derive(Debug, Clone, Copy, PartialEq, Eq, Structural)]
pub enum YKind {
    Oas,
}

impl YKind {
    pub fn unit_label(self) -> (r: &'static str)
        ensures
            r@ == "bp"@,
    {
        match self {
            YKind::Oas => "bp",
        }
    }
}

/// Short-end monotonicity guardrail: a candidate filter applied after each
/// least-squares solve.
#[derive(Debug, Clone, Copy, PartialEq, Eq, Structural)]
pub enum ShortEndMonotone {
    /// No monotonicity constraint.
    Off,
    /// Infer the direction from data and enforce it.
    Auto,
    /// Enforce `y(t)` non-decreasing over the short-end window.
    Increasing,
    /// Enforce `y(t)` non-increasing over the short-end window.
    Decreasing,
}

/// Which model order(s) to fit.
#[derive(Debug, Clone, Copy, PartialEq, Eq, Structural)]
pub enum ModelSpec {
    Auto,
    Ns,
    Nss,
    Nssc,
    All,
}

/// Outlier-robust fitting mode of the outer re-weighting loop.
#[derive(Debug, Clone, Copy, PartialEq, Eq, Structural)]
pub enum RobustKind {
    /// Plain weighted least squares, no re-weighting.
    Off,
    /// Huber M-estimation by iteratively re-weighted least squares.
    Huber,
}

/// Concrete fitted model order of the Nelson-Siegel family.
#[derive(Debug, Clone, Copy, PartialEq, Eq, Structural)]
pub enum ModelKind {
    Ns,
    Nss,
    Nssc,
}

impl ModelKind {
    /// Human-readable label for terminal output.
    pub fn display_name(self) -> (r: &'static str)
        ensures
            r@ == self.display_name_spec(),
    {
        match self {
            ModelKind::Ns => "NS",
            ModelKind::Nss => "NSS",
            ModelKind::Nssc => "NSS+ (3-hump)",
        }
    }

    pub open spec fn display_name_spec(self) -> Seq<char> {
        match self {
            ModelKind::Ns => "NS"@,
            ModelKind::Nss => "NSS"@,
            ModelKind::Nssc => "NSS+ (3-hump)"@,
        }
    }

    /// Number of linear coefficients of this order.
    pub fn beta_len(self) -> (r: usize)
        ensures
            r == self.beta_len_spec(),
    {
        match self {
            ModelKind::Ns => 3,
            ModelKind::Nss => 4,
            ModelKind::Nssc => 5,
        }
    }

    pub open spec fn beta_len_spec(self) -> nat {
        match self {
            ModelKind::Ns => 3,
            ModelKind::Nss => 4,
            ModelKind::Nssc => 5,
        }
    }

    /// Number of decay parameters of this order.
    pub fn tau_len(self) -> (r: usize)
        ensures
            r == self.tau_len_spec(),
    {
        match self {
            ModelKind::Ns => 1,
            ModelKind::Nss => 2,
            ModelKind::Nssc => 3,
        }
    }

    pub open spec fn tau_len_spec(self) -> nat {
        match self {
            ModelKind::Ns => 1,
            ModelKind::Nss => 2,
            ModelKind::Nssc => 3,
        }
    }

    /// Total parameter count used by information criteria: coefficients
    /// plus decays.
    pub fn param_count(self) -> (r: usize)
        ensures
            r == self.param_count_spec(),
    {
        self.beta_len() + self.tau_len()
    }

    pub open spec fn param_count_spec(self) -> nat {
        self.beta_len_spec() + self.tau_len_spec()
    }
}

/// How the short-end level `y(0)` is conditioned.
#[derive(Debug, Clone, Copy, PartialEq, Eq, Structural)]
pub enum FrontEndMode {
    /// Leave `y(0)` free.
    Off,
    /// Estimate a short-end level from the data and pull `y(0)` to it.
    Auto,
    /// Pull `y(0)` to zero.
    Zero,
    /// Pull `y(0)` to an explicit value.
    Fixed,
}

/// Optional observation metadata, carried through for reporting only;
/// the fitter never reads it.
#[derive(Debug, Clone)]
pub struct BondMeta {
    pub issuer: Option<String>,
    pub rating: Option<String>,
}

impl Default for BondMeta {
    fn default() -> (r: Self)
        ensures
            r.issuer is None,
            r.rating is None,
    {
        BondMeta { issuer: None, rating: None }
    }
}

} // verus!
