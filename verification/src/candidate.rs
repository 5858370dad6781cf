//! Reduction of grid-search candidate results to a single winner.
//!
//! Each decay-grid candidate that survives its least-squares solve and the
//! shape guardrails is reported with its canonical grid index and its
//! weighted sum of squared errors, encoded as an order key. The winner is
//! the candidate with the least error; exact ties go to the smaller grid
//! index, so the choice never depends on the order in which parallel
//! evaluation delivered the results.

use vstd::prelude::*;

verus! {

/// One surviving grid candidate: canonical grid index and the order key
/// of its weighted sum of squared errors.
#[derive(Debug, Clone, Copy, PartialEq, Eq, Structural)]
pub struct CandidateScore {
    pub grid_idx: usize,
    pub sse_key: u64,
}

/// Candidate `a` is no worse than `b`: smaller error key, ties broken by
/// the smaller grid index.
pub open spec fn score_le(a: CandidateScore, b: CandidateScore) -> bool {
    a.sse_key < b.sse_key || (a.sse_key == b.sse_key && a.grid_idx <= b.grid_idx)
}

/// Position `p` holds the winner of `c`: no candidate is better, and no
/// earlier position holds an equally good score.
pub open spec fn is_winner(c: Seq<CandidateScore>, p: int) -> bool {
    &&& 0 <= p < c.len()
    &&& forall|q: int| 0 <= q < c.len() ==> score_le(c[p], #[trigger] c[q])
    &&& forall|q: int| 0 <= q < p ==> !score_le(#[trigger] c[q], c[p])
}

/// Pick the winning candidate: least error key, ties to the smaller grid
/// index, and the first position among exact duplicates.
pub fn best_candidate(c: &Vec<CandidateScore>) -> (r: Option<usize>)
    ensures
        (c@.len() == 0) <==> r is None,
        r matches Some(p) ==> is_winner(c@, p as int),
{
    if c.len() == 0 {
        return None;
    }
    let mut best: usize = 0;
    let mut q: usize = 1;
    while q < c.len()
        invariant
            best < q <= c@.len(),
            forall|t: int| 0 <= t < q ==> score_le(c@[best as int], #[trigger] c@[t]),
            forall|t: int| 0 <= t < best ==> !score_le(#[trigger] c@[t], c@[best as int]),
        decreases c@.len() - q,
    {
        let cand = c[q];
        let cur = c[best];
        if cand.sse_key < cur.sse_key || (cand.sse_key == cur.sse_key && cand.grid_idx
            < cur.grid_idx) {
            best = q;
        }
        q = q + 1;
    }
    Some(best)
}

/// The winner is a function of which candidate scores exist, not of their
/// arrangement: two result lists holding the same scores -- in any order,
/// with any duplication -- yield the same winning score. Together with
/// the index tie-break this makes the grid search reproducible across
/// thread counts.
pub proof fn lemma_winner_depends_on_scores_only(
    a: Seq<CandidateScore>,
    b: Seq<CandidateScore>,
    pa: int,
    pb: int,
)
    requires
        is_winner(a, pa),
        is_winner(b, pb),
        forall|x: CandidateScore| a.contains(x) <==> b.contains(x),
    ensures
        a[pa] == b[pb],
{
    assert(a.contains(a[pa]));
    assert(b.contains(b[pb]));
    assert(b.contains(a[pa]));
    assert(a.contains(b[pb]));
    let qa = choose|q: int| 0 <= q < a.len() && a[q] == b[pb];
    let qb = choose|q: int| 0 <= q < b.len() && b[q] == a[pa];
    assert(score_le(a[pa], a[qa]));
    assert(score_le(b[pb], b[qb]));
}

/// Direction of an enforced short-end monotonicity constraint.
#[derive(Debug, Clone, Copy, PartialEq, Eq, Structural)]
pub enum MonotoneDir {
    Increasing,
    Decreasing,
}

/// Resolve the configured short-end mode to an enforced direction.
/// `slope_up` reports the sign of the short-end regression slope that the
/// caller estimated over the front bucket (`None` when no reliable slope
/// exists); it is read only in the `Auto` mode.
pub fn resolved_direction(mode: crate::domain::ShortEndMonotone, slope_up: Option<bool>) -> (r:
    Option<MonotoneDir>)
    ensures
        mode is Off ==> r is None,
        mode is Increasing ==> r == Some(MonotoneDir::Increasing),
        mode is Decreasing ==> r == Some(MonotoneDir::Decreasing),
        mode is Auto ==> match slope_up {
            Some(true) => r == Some(MonotoneDir::Increasing),
            Some(false) => r == Some(MonotoneDir::Decreasing),
            None => r is None,
        },
{
    match mode {
        crate::domain::ShortEndMonotone::Off => None,
        crate::domain::ShortEndMonotone::Increasing => Some(MonotoneDir::Increasing),
        crate::domain::ShortEndMonotone::Decreasing => Some(MonotoneDir::Decreasing),
        crate::domain::ShortEndMonotone::Auto => match slope_up {
            Some(true) => Some(MonotoneDir::Increasing),
            Some(false) => Some(MonotoneDir::Decreasing),
            None => None,
        },
    }
}

} // verus!
