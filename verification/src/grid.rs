//! Decay-grid combination enumeration.
//!
//! The caller produces the log-spaced decay values and hands them in as
//! fixed-point integers, smallest first. This module enumerates the
//! ordered index tuples that make up the candidate grid for the two- and
//! three-decay model orders: strictly increasing positions whose values
//! keep at least the configured minimum ratio, in lexicographic order.
//! That lexicographic position is the canonical grid index every
//! tie-break refers to.

use vstd::prelude::*;
use vstd::string::*;
use crate::error::AppError;

verus! {

/// Decay at position `j` is separated from the one at position `i` by at
/// least the ratio `num / den`.
pub open spec fn ratio_ok(taus: Seq<u64>, num: u64, den: u64, i: int, j: int) -> bool {
    taus[j] * den >= taus[i] * num
}

/// `a * d >= b * c`, exactly.
fn mul_ge(a: u64, d: u64, b: u64, c: u64) -> (r: bool)
    ensures
        r == (a * d >= b * c),
{
    proof {
        assert((a as u128) * (d as u128) <= u128::MAX && (b as u128) * (c as u128) <= u128::MAX)
            by (nonlinear_arith)
            requires
                a <= u64::MAX,
                d <= u64::MAX,
                b <= u64::MAX,
                c <= u64::MAX,
        ;
    }
    let lhs: u128 = (a as u128) * (d as u128);
    let rhs: u128 = (b as u128) * (c as u128);
    lhs >= rhs
}

/// Lexicographic order on index pairs.
pub open spec fn idx2_lt(a: (usize, usize), b: (usize, usize)) -> bool {
    a.0 < b.0 || (a.0 == b.0 && a.1 < b.1)
}

/// A pair is admitted to the grid: strictly increasing positions with
/// sufficient ratio separation.
pub open spec fn pair_admitted(taus: Seq<u64>, num: u64, den: u64, i: int, j: int) -> bool {
    0 <= i < j < taus.len() && ratio_ok(taus, num, den, i, j)
}

/// Candidate index pairs for the two-decay order: exactly the admitted
/// pairs, in lexicographic order.
pub fn tau_pairs(taus: &Vec<u64>, ratio_num: u64, ratio_den: u64) -> (r: Vec<(usize, usize)>)
    ensures
        forall|k: int|
            0 <= k < r@.len() ==> pair_admitted(
                taus@,
                ratio_num,
                ratio_den,
                (#[trigger] r@[k]).0 as int,
                r@[k].1 as int,
            ),
        forall|k: int, l: int| 0 <= k < l < r@.len() ==> idx2_lt(#[trigger] r@[k], #[trigger] r@[l]),
        forall|i: int, j: int|
            pair_admitted(taus@, ratio_num, ratio_den, i, j) ==> r@.contains(
                (i as usize, j as usize),
            ),
{
    let n = taus.len();
    let mut r: Vec<(usize, usize)> = Vec::new();
    let mut i: usize = 0;
    while i < n
        invariant
            i <= n == taus@.len(),
            forall|k: int|
                0 <= k < r@.len() ==> pair_admitted(
                    taus@,
                    ratio_num,
                    ratio_den,
                    (#[trigger] r@[k]).0 as int,
                    r@[k].1 as int,
                ),
            forall|k: int, l: int|
                0 <= k < l < r@.len() ==> idx2_lt(#[trigger] r@[k], #[trigger] r@[l]),
            forall|k: int| 0 <= k < r@.len() ==> (#[trigger] r@[k]).0 < i,
            forall|a: int, b: int|
                pair_admitted(taus@, ratio_num, ratio_den, a, b) && a < i ==> r@.contains(
                    (a as usize, b as usize),
                ),
        decreases n - i,
    {
        let mut j: usize = i + 1;
        while j < n
            invariant
                i < j <= n == taus@.len(),
                forall|k: int|
                    0 <= k < r@.len() ==> pair_admitted(
                        taus@,
                        ratio_num,
                        ratio_den,
                        (#[trigger] r@[k]).0 as int,
                        r@[k].1 as int,
                    ),
                forall|k: int, l: int|
                    0 <= k < l < r@.len() ==> idx2_lt(#[trigger] r@[k], #[trigger] r@[l]),
                forall|k: int|
                    0 <= k < r@.len() ==> (#[trigger] r@[k]).0 < i || (r@[k].0 == i && r@[k].1
                        < j),
                forall|a: int, b: int|
                    pair_admitted(taus@, ratio_num, ratio_den, a, b) && (a < i || (a == i && b
                        < j)) ==> r@.contains((a as usize, b as usize)),
            decreases n - j,
        {
            let ghost old_r = r@;
            if mul_ge(taus[j], ratio_den, taus[i], ratio_num) {
                r.push((i, j));
                proof {
                    assert(r@[r@.len() - 1] == (i, j));
                    assert forall|a: int, b: int|
                        pair_admitted(taus@, ratio_num, ratio_den, a, b) && (a < i || (a == i && b
                            < j + 1)) implies r@.contains((a as usize, b as usize)) by {
                        if a < i || b < j {
                            assert(old_r.contains((a as usize, b as usize)));
                            let k = choose|k: int|
                                0 <= k < old_r.len() && old_r[k] == (a as usize, b as usize);
                            assert(r@[k] == (a as usize, b as usize));
                        } else {
                            assert(r@[r@.len() - 1] == (a as usize, b as usize));
                        }
                    }
                }
            } else {
                proof {
                    assert forall|a: int, b: int|
                        pair_admitted(taus@, ratio_num, ratio_den, a, b) && (a < i || (a == i && b
                            < j + 1)) implies r@.contains((a as usize, b as usize)) by {
                        assert(!(a == i && b == j));
                    }
                }
            }
            j = j + 1;
        }
        i = i + 1;
    }
    r
}

/// Lexicographic order on index triples.
pub open spec fn idx3_lt(a: (usize, usize, usize), b: (usize, usize, usize)) -> bool {
    a.0 < b.0 || (a.0 == b.0 && (a.1 < b.1 || (a.1 == b.1 && a.2 < b.2)))
}

/// A triple is admitted to the grid: strictly increasing positions with
/// sufficient ratio separation between each adjacent pair.
pub open spec fn triple_admitted(taus: Seq<u64>, num: u64, den: u64, i: int, j: int, k: int) -> bool {
    0 <= i < j < k < taus.len() && ratio_ok(taus, num, den, i, j) && ratio_ok(taus, num, den, j, k)
}

/// Candidate index triples for the three-decay order: exactly the
/// admitted triples, in lexicographic order.
pub fn tau_triples(taus: &Vec<u64>, ratio_num: u64, ratio_den: u64) -> (r: Vec<
    (usize, usize, usize),
>)
    ensures
        forall|t: int|
            0 <= t < r@.len() ==> triple_admitted(
                taus@,
                ratio_num,
                ratio_den,
                (#[trigger] r@[t]).0 as int,
                r@[t].1 as int,
                r@[t].2 as int,
            ),
        forall|t: int, u: int| 0 <= t < u < r@.len() ==> idx3_lt(#[trigger] r@[t], #[trigger] r@[u]),
        forall|i: int, j: int, k: int|
            triple_admitted(taus@, ratio_num, ratio_den, i, j, k) ==> r@.contains(
                (i as usize, j as usize, k as usize),
            ),
{
    let n = taus.len();
    let mut r: Vec<(usize, usize, usize)> = Vec::new();
    let mut i: usize = 0;
    while i < n
        invariant
            i <= n == taus@.len(),
            forall|t: int|
                0 <= t < r@.len() ==> triple_admitted(
                    taus@,
                    ratio_num,
                    ratio_den,
                    (#[trigger] r@[t]).0 as int,
                    r@[t].1 as int,
                    r@[t].2 as int,
                ),
            forall|t: int, u: int|
                0 <= t < u < r@.len() ==> idx3_lt(#[trigger] r@[t], #[trigger] r@[u]),
            forall|t: int| 0 <= t < r@.len() ==> (#[trigger] r@[t]).0 < i,
            forall|a: int, b: int, c: int|
                triple_admitted(taus@, ratio_num, ratio_den, a, b, c) && a < i ==> r@.contains(
                    (a as usize, b as usize, c as usize),
                ),
        decreases n - i,
    {
        let mut j: usize = i + 1;
        while j < n
            invariant
                i < j <= n == taus@.len(),
                forall|t: int|
                    0 <= t < r@.len() ==> triple_admitted(
                        taus@,
                        ratio_num,
                        ratio_den,
                        (#[trigger] r@[t]).0 as int,
                        r@[t].1 as int,
                        r@[t].2 as int,
                    ),
                forall|t: int, u: int|
                    0 <= t < u < r@.len() ==> idx3_lt(#[trigger] r@[t], #[trigger] r@[u]),
                forall|t: int|
                    0 <= t < r@.len() ==> (#[trigger] r@[t]).0 < i || (r@[t].0 == i && r@[t].1
                        < j),
                forall|a: int, b: int, c: int|
                    triple_admitted(taus@, ratio_num, ratio_den, a, b, c) && (a < i || (a == i && b
                        < j)) ==> r@.contains((a as usize, b as usize, c as usize)),
            decreases n - j,
        {
            let mut k: usize = j + 1;
            while k < n
                invariant
                    i < j < k <= n == taus@.len(),
                    forall|t: int|
                        0 <= t < r@.len() ==> triple_admitted(
                            taus@,
                            ratio_num,
                            ratio_den,
                            (#[trigger] r@[t]).0 as int,
                            r@[t].1 as int,
                            r@[t].2 as int,
                        ),
                    forall|t: int, u: int|
                        0 <= t < u < r@.len() ==> idx3_lt(#[trigger] r@[t], #[trigger] r@[u]),
                    forall|t: int|
                        0 <= t < r@.len() ==> (#[trigger] r@[t]).0 < i || (r@[t].0 == i && (r@[t].1
                            < j || (r@[t].1 == j && r@[t].2 < k))),
                    forall|a: int, b: int, c: int|
                        triple_admitted(taus@, ratio_num, ratio_den, a, b, c) && (a < i || (a == i
                            && (b < j || (b == j && c < k)))) ==> r@.contains(
                            (a as usize, b as usize, c as usize),
                        ),
                decreases n - k,
            {
                let ghost old_r = r@;
                if mul_ge(taus[j], ratio_den, taus[i], ratio_num) && mul_ge(
                    taus[k],
                    ratio_den,
                    taus[j],
                    ratio_num,
                ) {
                    r.push((i, j, k));
                    proof {
                        assert(r@[r@.len() - 1] == (i, j, k));
                        assert forall|a: int, b: int, c: int|
                            triple_admitted(taus@, ratio_num, ratio_den, a, b, c) && (a < i || (a
                                == i && (b < j || (b == j && c < k + 1)))) implies r@.contains(
                            (a as usize, b as usize, c as usize),
                        ) by {
                            if a < i || b < j || c < k {
                                assert(old_r.contains((a as usize, b as usize, c as usize)));
                                let t = choose|t: int|
                                    0 <= t < old_r.len() && old_r[t] == (
                                    a as usize,
                                    b as usize,
                                    c as usize,
                                    );
                                assert(r@[t] == (a as usize, b as usize, c as usize));
                            } else {
                                assert(r@[r@.len() - 1] == (a as usize, b as usize, c as usize));
                            }
                        }
                    }
                } else {
                    proof {
                        assert forall|a: int, b: int, c: int|
                            triple_admitted(taus@, ratio_num, ratio_den, a, b, c) && (a < i || (a
                                == i && (b < j || (b == j && c < k + 1)))) implies r@.contains(
                            (a as usize, b as usize, c as usize),
                        ) by {
                            assert(!(a == i && b == j && c == k));
                        }
                    }
                }
                k = k + 1;
            }
            j = j + 1;
        }
        i = i + 1;
    }
    r
}

/// Validate the decay-grid configuration, over the caller's fixed-point
/// encoding of the range. A non-positive lower bound, an inverted range,
/// or fewer than two steps is an invalid configuration.
pub fn check_tau_range(tau_min: u64, tau_max: u64, steps: usize) -> (r: Result<(), AppError>)
    ensures
        r is Ok <==> (0 < tau_min < tau_max && steps >= 2),
        r matches Err(e) ==> e.spec_exit_code() == 2,
        !(0 < tau_min < tau_max) ==> (r matches Err(e) && e.spec_message()
            == "Invalid tau range (must be finite, >0, and max>min)."@),
        (0 < tau_min < tau_max && steps < 2) ==> (r matches Err(e) && e.spec_message()
            == "Tau steps must be >= 2."@),
{
    if !(tau_min > 0 && tau_max > tau_min) {
        return Err(
            AppError::new(
                2,
                String::from_str("Invalid tau range (must be finite, >0, and max>min)."),
            ),
        );
    }
    if steps < 2 {
        return Err(AppError::new(2, String::from_str("Tau steps must be >= 2.")));
    }
    Ok(())
}

} // verus!
