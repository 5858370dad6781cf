//! Deterministic ordering of observations by encoded measurements.
//!
//! Measurements enter as `u64` order keys: the caller encodes each
//! floating-point value so that the numeric order of the keys is the order
//! of the values. Every ordering decision here is made on `(key, index)`
//! pairs, so ties on the measurement are always broken by the original
//! observation index, which makes the outcome reproducible.

use vstd::prelude::*;
use vstd::seq_lib::group_to_multiset_ensures;
use vstd::multiset::group_multiset_axioms;
use vstd::multiset::Multiset;

verus! {

/// Weak lexicographic order on `(key, index)` pairs.
pub open spec fn pair_le(a: (u64, u64), b: (u64, u64)) -> bool {
    a.0 < b.0 || (a.0 == b.0 && a.1 <= b.1)
}

/// The sequence is weakly sorted under `pair_le`.
pub open spec fn pairs_sorted(s: Seq<(u64, u64)>) -> bool {
    forall|i: int, j: int| 0 <= i < j < s.len() ==> pair_le(#[trigger] s[i], #[trigger] s[j])
}

/// Sort `(key, index)` pairs by `pair_le`, keeping the collection of pairs.
pub fn sort_pairs(v: Vec<(u64, u64)>) -> (r: Vec<(u64, u64)>)
    ensures
        r@.len() == v@.len(),
        pairs_sorted(r@),
        r@.to_multiset() == v@.to_multiset(),
{
    broadcast use group_to_multiset_ensures;
    broadcast use group_multiset_axioms;

    let ghost orig = v@;
    let mut rest = v;
    let mut r: Vec<(u64, u64)> = Vec::new();
    proof {
        assert(r@.to_multiset().add(rest@.to_multiset()) =~= orig.to_multiset());
    }
    while rest.len() > 0
        invariant
            r@.len() + rest@.len() == orig.len(),
            pairs_sorted(r@),
            r@.to_multiset().add(rest@.to_multiset()) == orig.to_multiset(),
            forall|i: int, j: int|
                0 <= i < r@.len() && 0 <= j < rest@.len() ==> pair_le(
                    #[trigger] r@[i],
                    #[trigger] rest@[j],
                ),
        decreases rest@.len(),
    {
        // Position of the least remaining pair (first one on exact duplicates).
        let mut m: usize = 0;
        let mut k: usize = 1;
        while k < rest.len()
            invariant
                m < k <= rest@.len(),
                forall|j: int| 0 <= j < k ==> pair_le(rest@[m as int], #[trigger] rest@[j]),
            decreases rest@.len() - k,
        {
            let cand = rest[k];
            let cur = rest[m];
            if cand.0 < cur.0 || (cand.0 == cur.0 && cand.1 < cur.1) {
                m = k;
            }
            k = k + 1;
        }
        let ghost old_r = r@;
        let ghost old_rest = rest@;
        let x = rest.remove(m);
        r.push(x);
        proof {
            old_r.to_multiset_ensures();
            old_rest.to_multiset_ensures();
            assert(old_rest.contains(x)) by {
                assert(old_rest[m as int] == x);
            }
            assert(r@ == old_r.push(x));
            assert(old_r.push(x).to_multiset() =~= old_r.to_multiset().insert(x));
            assert(rest@ == old_rest.remove(m as int));
            assert(old_rest.remove(m as int).to_multiset() =~= old_rest.to_multiset().remove(x));
            assert(r@.to_multiset().add(rest@.to_multiset()) =~= orig.to_multiset());
            // The pushed pair is no less than everything already placed and
            // no greater than everything still waiting.
            assert forall|i: int, j: int|
                0 <= i < r@.len() && 0 <= j < rest@.len() implies pair_le(r@[i], rest@[j]) by {
                if i < old_r.len() {
                    if j < m {
                        assert(rest@[j] == old_rest[j]);
                    } else {
                        assert(rest@[j] == old_rest[j + 1]);
                    }
                } else {
                    assert(r@[i] == x);
                    if j < m {
                        assert(rest@[j] == old_rest[j]);
                    } else {
                        assert(rest@[j] == old_rest[j + 1]);
                    }
                }
            }
        }
    }
    proof {
        assert(rest@.to_multiset() =~= Multiset::<(u64, u64)>::empty());
        assert(r@.to_multiset() =~= orig.to_multiset());
    }
    r
}

/// A pair describes position `e.1` of `keys` and carries its key.
pub open spec fn entry_wf(keys: Seq<u64>, e: (u64, u64)) -> bool {
    e.1 < keys.len() && e.0 == keys[e.1 as int]
}

/// `ord` arranges all positions of `keys` in ascending `(key, index)`
/// order: one entry per position, each carrying its own key, weakly
/// sorted, and with every position present. These four clauses determine
/// `ord` uniquely.
pub open spec fn is_rank_order(keys: Seq<u64>, ord: Seq<(u64, u64)>) -> bool {
    &&& ord.len() == keys.len()
    &&& pairs_sorted(ord)
    &&& forall|p: int| 0 <= p < ord.len() ==> entry_wf(keys, #[trigger] ord[p])
    &&& forall|j: int| 0 <= j < keys.len() ==> ord.contains((keys[j], j as u64))
}

/// Arrange the positions of `keys` in ascending `(key, index)` order.
pub fn rank_pairs(keys: &Vec<u64>) -> (ord: Vec<(u64, u64)>)
    ensures
        is_rank_order(keys@, ord@),
{
    broadcast use group_to_multiset_ensures;

    let mut pairs: Vec<(u64, u64)> = Vec::new();
    let mut i: usize = 0;
    while i < keys.len()
        invariant
            i <= keys@.len(),
            pairs@.len() == i,
            forall|p: int| 0 <= p < i ==> #[trigger] pairs@[p] == (keys@[p], p as u64),
        decreases keys@.len() - i,
    {
        pairs.push((keys[i], i as u64));
        i = i + 1;
    }
    let ghost flat = pairs@;
    let ord = sort_pairs(pairs);
    proof {
        assert forall|p: int| 0 <= p < ord@.len() implies entry_wf(keys@, ord@[p]) by {
            assert(ord@.contains(ord@[p]));
            assert(ord@.to_multiset().count(ord@[p]) > 0);
            assert(flat.contains(ord@[p]));
            let q = choose|q: int| 0 <= q < flat.len() && flat[q] == ord@[p];
            assert(flat[q] == (keys@[q], q as u64));
        }
        assert forall|j: int| 0 <= j < keys@.len() implies ord@.contains((keys@[j], j as u64)) by {
            assert(flat[j] == (keys@[j], j as u64));
            assert(flat.contains((keys@[j], j as u64)));
            assert(flat.to_multiset().count((keys@[j], j as u64)) > 0);
        }
    }
    ord
}

/// Cheap/rich rankings: the top positions on each side, as indices into
/// the caller's residual list.
#[derive(Debug, Clone)]
pub struct Rankings {
    pub cheap: Vec<usize>,
    pub rich: Vec<usize>,
}

/// Position `a` ranks no worse than `b` on the cheap side: larger key
/// first, ties broken by the smaller index.
pub open spec fn cheap_le(keys: Seq<u64>, a: int, b: int) -> bool {
    keys[a] > keys[b] || (keys[a] == keys[b] && a <= b)
}

/// Position `a` ranks no worse than `b` on the rich side: smaller key
/// first, ties broken by the smaller index.
pub open spec fn rich_le(keys: Seq<u64>, a: int, b: int) -> bool {
    keys[a] < keys[b] || (keys[a] == keys[b] && a <= b)
}

pub open spec fn side_le(keys: Seq<u64>, desc: bool, a: int, b: int) -> bool {
    if desc {
        cheap_le(keys, a, b)
    } else {
        rich_le(keys, a, b)
    }
}

/// `r` is the ranking of one side: the `top_n` best positions under the
/// side's order, best first. Every position left out ranks no better than
/// every position listed.
pub open spec fn is_side_ranking(keys: Seq<u64>, desc: bool, top_n: nat, r: Seq<usize>) -> bool {
    &&& r.len() == (if top_n < keys.len() {
        top_n as int
    } else {
        keys.len() as int
    })
    &&& forall|p: int| 0 <= p < r.len() ==> #[trigger] r[p] < keys.len()
    &&& forall|p: int, q: int| 0 <= p < q < r.len() ==> side_le(keys, desc, #[trigger] r[p] as int, #[trigger] r[q] as int)
    &&& forall|j: int, p: int|
        0 <= j < keys.len() && !(#[trigger] r.contains(j as usize)) && 0 <= p < r.len()
            ==> side_le(keys, desc, #[trigger] r[p] as int, j)
}

/// First `top_n` indices carried by a rank order.
fn top_indices(ord: &Vec<(u64, u64)>, top_n: usize) -> (out: Vec<usize>)
    requires
        forall|p: int| 0 <= p < ord@.len() ==> (#[trigger] ord@[p]).1 < ord@.len(),
    ensures
        out@.len() == (if top_n < ord@.len() {
            top_n as int
        } else {
            ord@.len() as int
        }),
        forall|p: int| 0 <= p < out@.len() ==> #[trigger] out@[p] == ord@[p].1 as usize,
{
    let n = ord.len();
    let count = if top_n < n {
        top_n
    } else {
        n
    };
    let mut out: Vec<usize> = Vec::new();
    let mut p: usize = 0;
    while p < count
        invariant
            p <= count <= ord@.len(),
            out@.len() == p,
            forall|q: int| 0 <= q < ord@.len() ==> (#[trigger] ord@[q]).1 < ord@.len(),
            forall|q: int| 0 <= q < p ==> #[trigger] out@[q] == ord@[q].1 as usize,
        decreases count - p,
    {
        out.push(ord[p].1 as usize);
        p = p + 1;
    }
    out
}

/// Carry a rank order over `side_keys` into a side ranking over `keys`,
/// where the two key vectors order positions identically (up to the
/// side's direction).
proof fn lemma_side_ranking(
    keys: Seq<u64>,
    side_keys: Seq<u64>,
    desc: bool,
    ord: Seq<(u64, u64)>,
    top_n: nat,
    out: Seq<usize>,
)
    requires
        keys.len() <= usize::MAX,
        side_keys.len() == keys.len(),
        forall|a: int, b: int|
            0 <= a < keys.len() && 0 <= b < keys.len() ==> (pair_le(
                (side_keys[a], a as u64),
                (side_keys[b], b as u64),
            ) <==> side_le(keys, desc, a, b)),
        is_rank_order(side_keys, ord),
        out.len() == (if top_n < keys.len() {
            top_n as int
        } else {
            keys.len() as int
        }),
        forall|p: int| 0 <= p < out.len() ==> #[trigger] out[p] == ord[p].1 as usize,
    ensures
        is_side_ranking(keys, desc, top_n, out),
{
    assert forall|p: int| 0 <= p < out.len() implies #[trigger] out[p] < keys.len() by {
        assert(entry_wf(side_keys, ord[p]));
    }
    assert forall|p: int, q: int| 0 <= p < q < out.len() implies side_le(
        keys,
        desc,
        #[trigger] out[p] as int,
        #[trigger] out[q] as int,
    ) by {
        assert(entry_wf(side_keys, ord[p]));
        assert(entry_wf(side_keys, ord[q]));
        assert(pair_le(ord[p], ord[q]));
        assert(ord[p] == (side_keys[out[p] as int], out[p] as u64));
        assert(ord[q] == (side_keys[out[q] as int], out[q] as u64));
    }
    assert forall|j: int, p: int|
        0 <= j < keys.len() && !(#[trigger] out.contains(j as usize)) && 0 <= p < out.len()
            implies side_le(keys, desc, #[trigger] out[p] as int, j) by {
        assert(ord.contains((side_keys[j], j as u64)));
        let t = choose|t: int| 0 <= t < ord.len() && ord[t] == (side_keys[j], j as u64);
        assert(t >= out.len()) by {
            if t < out.len() {
                assert(out[t] == ord[t].1 as usize);
                assert(out[t] == j as usize);
                assert(out.contains(j as usize));
            }
        }
        assert(pair_le(ord[p], ord[t]));
        assert(entry_wf(side_keys, ord[p]));
        assert(ord[p] == (side_keys[out[p] as int], out[p] as u64));
    }
}

/// Rank the observations by residual key: the `top_n` cheapest (largest
/// key) and the `top_n` richest (smallest key), each best first, ties
/// broken by observation index.
pub fn rank_cheap_rich(keys: &Vec<u64>, top_n: usize) -> (r: Rankings)
    ensures
        is_side_ranking(keys@, true, top_n as nat, r.cheap@),
        is_side_ranking(keys@, false, top_n as nat, r.rich@),
{
    let n = keys.len();
    proof {
        assert(keys@.len() == n <= usize::MAX);
    }

    // Rich side: ascending keys directly.
    let rich_ord = rank_pairs(keys);
    let rich = top_indices(&rich_ord, top_n);
    proof {
        lemma_side_ranking(keys@, keys@, false, rich_ord@, top_n as nat, rich@);
    }

    // Cheap side: complemented keys turn descending order into ascending.
    let mut flipped: Vec<u64> = Vec::new();
    let mut i: usize = 0;
    while i < keys.len()
        invariant
            i <= keys@.len(),
            flipped@.len() == i,
            forall|p: int| 0 <= p < i ==> #[trigger] flipped@[p] == u64::MAX - keys@[p],
        decreases keys@.len() - i,
    {
        flipped.push(u64::MAX - keys[i]);
        i = i + 1;
    }
    let cheap_ord = rank_pairs(&flipped);
    let cheap = top_indices(&cheap_ord, top_n);
    proof {
        lemma_side_ranking(keys@, flipped@, true, cheap_ord@, top_n as nat, cheap@);
    }

    Rankings { cheap, rich }
}

/// The two middle keys of the sorted key order: equal for an odd count,
/// the lower and upper middle for an even count. The caller averages the
/// corresponding measurements to obtain the median.
pub fn median_pair(keys: &Vec<u64>) -> (r: Option<(u64, u64)>)
    ensures
        (keys@.len() == 0) <==> r is None,
        r matches Some(m) ==> m.0 <= m.1,
        r matches Some(m) ==> exists|ord: Seq<(u64, u64)>|
            #[trigger] is_rank_order(keys@, ord) && m.0 == ord[(keys@.len() - 1) as int / 2].0
                && m.1 == ord[keys@.len() as int / 2].0,
{
    if keys.len() == 0 {
        return None;
    }
    let ord = rank_pairs(keys);
    let n = ord.len();
    let hi = ord[n / 2].0;
    let lo = ord[(n - 1) / 2].0;
    proof {
        assert(pairs_sorted(ord@));
        if (n - 1) / 2 < n / 2 {
            assert(pair_le(ord@[(n - 1) as int / 2], ord@[n as int / 2]));
        }
        assert(is_rank_order(keys@, ord@) && lo == ord@[(keys@.len() - 1) as int / 2].0 && hi
            == ord@[keys@.len() as int / 2].0);
    }
    Some((lo, hi))
}

/// Number of positions whose key lies inside the window.
pub open spec fn window_count(keys: Seq<u64>, window: u64) -> nat
    decreases keys.len(),
{
    if keys.len() == 0 {
        0
    } else {
        window_count(keys.drop_last(), window) + (if keys.last() <= window {
            1nat
        } else {
            0nat
        })
    }
}

/// Pick the observations that anchor the short-end slope estimate: all
/// positions with tenor key inside the window when at least three lie
/// there, otherwise the five shortest tenors (ties broken by index).
pub fn short_end_bucket(keys: &Vec<u64>, window: u64) -> (r: Vec<usize>)
    ensures
        window_count(keys@, window) >= 3 ==> {
            &&& r@.len() == window_count(keys@, window)
            &&& forall|p: int| 0 <= p < r@.len() ==> #[trigger] r@[p] < keys@.len()
                && keys@[r@[p] as int] <= window
            &&& forall|p: int, q: int| 0 <= p < q < r@.len() ==> #[trigger] r@[p] < #[trigger] r@[q]
            &&& forall|j: int|
                0 <= j < keys@.len() && keys@[j] <= window ==> r@.contains(j as usize)
        },
        window_count(keys@, window) < 3 ==> is_side_ranking(keys@, false, 5, r@),
{
    let mut out: Vec<usize> = Vec::new();
    let mut i: usize = 0;
    while i < keys.len()
        invariant
            i <= keys@.len(),
            out@.len() == window_count(keys@.take(i as int), window),
            forall|p: int| 0 <= p < out@.len() ==> #[trigger] out@[p] < i
                && keys@[out@[p] as int] <= window,
            forall|p: int, q: int| 0 <= p < q < out@.len() ==> #[trigger] out@[p] < #[trigger] out@[q],
            forall|j: int| 0 <= j < i && keys@[j] <= window ==> out@.contains(j as usize),
        decreases keys@.len() - i,
    {
        proof {
            assert(keys@.take(i + 1).drop_last() =~= keys@.take(i as int));
            assert(keys@.take(i + 1).last() == keys@[i as int]);
        }
        let ghost old_out = out@;
        if keys[i] <= window {
            out.push(i);
            proof {
                assert forall|j: int| 0 <= j < i + 1 && keys@[j] <= window implies out@.contains(
                    j as usize,
                ) by {
                    if j < i {
                        let p = choose|p: int| 0 <= p < old_out.len() && old_out[p] == j as usize;
                        assert(out@[p] == j as usize);
                    } else {
                        assert(out@[out@.len() - 1] == j as usize);
                    }
                }
            }
        }
        i = i + 1;
    }
    proof {
        assert(keys@.take(keys@.len() as int) =~= keys@);
    }
    if out.len() >= 3 {
        return out;
    }
    let ord = rank_pairs(keys);
    let r = top_indices(&ord, 5);
    proof {
        lemma_side_ranking(keys@, keys@, false, ord@, 5, r@);
    }
    r
}

} // verus!
