//! Outlier-robust re-weighting support.
//!
//! The outer loop of the fitter recomputes a working weight for every
//! observation from its residual. The scale estimate and the Huber factor
//! are the caller's floating-point work; the factor arrives here as a
//! fixed-point fraction in parts per million, and this module applies it
//! together with the weight floor: no observation's working weight ever
//! drops below a thousandth of its base weight, so no observation is
//! extinguished.

use vstd::prelude::*;
use vstd::arithmetic::div_mod::lemma_div_is_ordered;
use vstd::arithmetic::div_mod::lemma_div_multiples_vanish;
use crate::domain::RobustKind;

verus! {

/// How many passes of the inner fitter a robust configuration takes: one
/// plain pass, plus one per re-weighting iteration.
pub fn refit_passes(robust: RobustKind, iters: usize) -> (n: usize)
    ensures
        robust is Off ==> n == 1,
        robust is Huber ==> n == (if iters == usize::MAX {
            usize::MAX as int
        } else {
            iters + 1
        }),
{
    match robust {
        RobustKind::Off => 1,
        RobustKind::Huber => if iters == usize::MAX {
            iters
        } else {
            iters + 1
        },
    }
}

/// The effective factor after the floor: never below a thousandth.
pub open spec fn floored_factor(f: u64) -> int {
    if f < 1000 {
        1000
    } else {
        f as int
    }
}

/// Apply per-observation re-weighting factors to the base weights, with
/// the weight floor. Weights are fixed-point; a factor is given in parts
/// per million of the base weight and never exceeds one.
///
/// The second clause is the floor invariant: every working weight keeps
/// at least a thousandth of its base weight.
pub fn floor_weights(w_base: &Vec<u64>, factor_ppm: &Vec<u64>) -> (w: Vec<u64>)
    requires
        w_base@.len() == factor_ppm@.len(),
        forall|i: int| 0 <= i < factor_ppm@.len() ==> #[trigger] factor_ppm@[i] <= 1000000,
    ensures
        w@.len() == w_base@.len(),
        forall|i: int|
            0 <= i < w@.len() ==> #[trigger] w@[i] == w_base@[i] * floored_factor(factor_ppm@[i])
                / 1000000,
        forall|i: int| 0 <= i < w@.len() ==> #[trigger] w@[i] >= w_base@[i] / 1000,
        forall|i: int| 0 <= i < w@.len() ==> #[trigger] w@[i] <= w_base@[i],
{
    let n = w_base.len();
    let mut w: Vec<u64> = Vec::new();
    let mut i: usize = 0;
    while i < n
        invariant
            i <= n == w_base@.len() == factor_ppm@.len(),
            w@.len() == i,
            forall|t: int| 0 <= t < factor_ppm@.len() ==> #[trigger] factor_ppm@[t] <= 1000000,
            forall|t: int|
                0 <= t < i ==> #[trigger] w@[t] == w_base@[t] * floored_factor(factor_ppm@[t])
                    / 1000000,
            forall|t: int| 0 <= t < i ==> #[trigger] w@[t] >= w_base@[t] / 1000,
            forall|t: int| 0 <= t < i ==> #[trigger] w@[t] <= w_base@[t],
        decreases n - i,
    {
        let wb = w_base[i];
        let f = factor_ppm[i];
        let fc: u64 = if f < 1000 {
            1000
        } else {
            f
        };
        proof {
            assert((wb as int) * (fc as int) <= (wb as int) * 1000000) by (nonlinear_arith)
                requires
                    fc <= 1000000,
            ;
            assert((wb as int) * 1000 <= (wb as int) * (fc as int)) by (nonlinear_arith)
                requires
                    fc >= 1000,
            ;
            assert((wb as u128) * (fc as u128) <= u128::MAX) by (nonlinear_arith)
                requires
                    wb <= u64::MAX,
                    fc <= 1000000,
            ;
            lemma_div_is_ordered((wb as int) * 1000, (wb as int) * (fc as int), 1000000);
            lemma_div_is_ordered((wb as int) * (fc as int), (wb as int) * 1000000, 1000000);
            assert((wb as int) * 1000000 / 1000000 == wb as int) by {
                lemma_div_multiples_vanish(wb as int, 1000000);
            }
            assert((wb as int) * 1000 / 1000000 == wb as int / 1000) by {
                assert((wb as int) * 1000 / 1000000 == ((wb as int) * 1000 / 1000) / 1000) by {
                    vstd::arithmetic::div_mod::lemma_div_denominator(
                        (wb as int) * 1000,
                        1000,
                        1000,
                    );
                }
                assert((wb as int) * 1000 / 1000 == wb as int) by {
                    lemma_div_multiples_vanish(wb as int, 1000);
                }
            }
        }
        let prod: u128 = (wb as u128) * (fc as u128);
        let wi: u64 = (prod / 1000000) as u64;
        w.push(wi);
        i = i + 1;
    }
    w
}

} // verus!
