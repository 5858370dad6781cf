//! Model-order planning and information-criterion selection.
//!
//! Planning decides which orders are attempted at all: an order needs at
//! least five observations beyond its parameter count, and anything short
//! of that is set aside with a reason. Selection picks among the fitted
//! orders by their information criterion, encoded by the caller as a pair
//! of order keys: the key of the criterion value itself and the key of
//! that value plus the simplicity tolerance of two points. Keys preserve
//! the numeric order of the criterion, so "within two points of the best"
//! is decided exactly.

use vstd::prelude::*;
use vstd::string::*;
use crate::domain::{ModelKind, ModelSpec};
use crate::error::AppError;
use crate::text::dec_digits;
use crate::text::u64_string;

verus! {

/// Why a model order was set aside rather than fitted.
#[derive(Debug, Clone, Copy, PartialEq, Eq, Structural)]
pub enum SkipReason {
    /// Too few observations for the order's parameter count: fitting
    /// needs `n >= k + 5`.
    Underdetermined { n: usize, needed: usize },
}

impl SkipReason {
    pub open spec fn message_spec(&self) -> Seq<char> {
        match *self {
            SkipReason::Underdetermined { n, needed } => "Underdetermined: n="@ + dec_digits(
                n as nat,
            ) + " < k+5="@ + dec_digits(needed as nat),
        }
    }

    /// The reason as display text, e.g. `"Underdetermined: n=8 < k+5=13"`.
    pub fn message(&self) -> (r: String)
        ensures
            r@ == self.message_spec(),
    {
        match *self {
            SkipReason::Underdetermined { n, needed } => {
                let mut s = String::from_str("Underdetermined: n=");
                let n_text = u64_string(n as u64);
                s.append(n_text.as_str());
                s.append(" < k+5=");
                let needed_text = u64_string(needed as u64);
                s.append(needed_text.as_str());
                s
            },
        }
    }
}

/// An order may be attempted only with at least five observations beyond
/// its parameter count.
pub open spec fn eligible(kind: ModelKind, n: nat) -> bool {
    n >= kind.param_count_spec() + 5
}

/// The orders a model specification asks for, simplest first.
pub open spec fn requested_kinds(ms: ModelSpec) -> Seq<ModelKind> {
    match ms {
        ModelSpec::Ns => seq![ModelKind::Ns],
        ModelSpec::Nss => seq![ModelKind::Nss],
        ModelSpec::Nssc => seq![ModelKind::Nssc],
        ModelSpec::Auto => seq![ModelKind::Ns, ModelKind::Nss, ModelKind::Nssc],
        ModelSpec::All => seq![ModelKind::Ns, ModelKind::Nss, ModelKind::Nssc],
    }
}

pub open spec fn elig_pred(n: usize) -> spec_fn(ModelKind) -> bool {
    |k: ModelKind| eligible(k, n as nat)
}

pub open spec fn inelig_pred(n: usize) -> spec_fn(ModelKind) -> bool {
    |k: ModelKind| !eligible(k, n as nat)
}

pub open spec fn skip_entry(n: usize) -> spec_fn(ModelKind) -> (ModelKind, SkipReason) {
    |k: ModelKind|
        (
            k,
            SkipReason::Underdetermined {
                n,
                needed: (k.param_count_spec() + 5) as usize,
            },
        )
}

/// Split the requested orders into those to attempt and those set aside
/// as underdetermined, each side keeping the simplest-first order.
pub fn plan_orders(ms: ModelSpec, n: usize) -> (r: (Vec<ModelKind>, Vec<(ModelKind, SkipReason)>))
    ensures
        r.0@ == requested_kinds(ms).filter(elig_pred(n)),
        r.1@ == requested_kinds(ms).filter(inelig_pred(n)).map_values(skip_entry(n)),
{
    let mut req: Vec<ModelKind> = Vec::new();
    match ms {
        ModelSpec::Ns => {
            req.push(ModelKind::Ns);
        },
        ModelSpec::Nss => {
            req.push(ModelKind::Nss);
        },
        ModelSpec::Nssc => {
            req.push(ModelKind::Nssc);
        },
        ModelSpec::Auto | ModelSpec::All => {
            req.push(ModelKind::Ns);
            req.push(ModelKind::Nss);
            req.push(ModelKind::Nssc);
        },
    }
    proof {
        assert(req@ =~= requested_kinds(ms));
    }

    let mut attempt: Vec<ModelKind> = Vec::new();
    let mut skipped: Vec<(ModelKind, SkipReason)> = Vec::new();
    proof {
        assert(req@.take(0) =~= Seq::<ModelKind>::empty());
        assert(attempt@ =~= req@.take(0).filter(elig_pred(n)));
        assert(skipped@ =~= req@.take(0).filter(inelig_pred(n)).map_values(skip_entry(n)));
    }
    let mut i: usize = 0;
    while i < req.len()
        invariant
            i <= req@.len(),
            attempt@ == req@.take(i as int).filter(elig_pred(n)),
            skipped@ == req@.take(i as int).filter(inelig_pred(n)).map_values(skip_entry(n)),
        decreases req@.len() - i,
    {
        let kind = req[i];
        let k = kind.param_count();
        let needed = k + 5;
        proof {
            assert(req@.take(i + 1) =~= req@.take(i as int).push(kind));
            req@.take(i as int).lemma_filter_push(kind, elig_pred(n));
            req@.take(i as int).lemma_filter_push(kind, inelig_pred(n));
        }
        if n >= needed {
            attempt.push(kind);
        } else {
            skipped.push((kind, SkipReason::Underdetermined { n, needed }));
            proof {
                let before = req@.take(i as int).filter(inelig_pred(n));
                assert(before.push(kind).map_values(skip_entry(n)) =~= before.map_values(
                    skip_entry(n),
                ).push(skip_entry(n)(kind)));
                assert(skipped@ =~= before.push(kind).map_values(skip_entry(n)));
            }
        }
        i = i + 1;
    }
    proof {
        assert(req@.take(req@.len() as int) =~= req@);
    }
    (attempt, skipped)
}

/// One fitted order as the selector sees it: the order's kind, the order
/// key of its information criterion, and the key of the criterion plus
/// the simplicity tolerance of two points.
#[derive(Debug, Clone, Copy, PartialEq, Eq, Structural)]
pub struct FitScore {
    pub kind: ModelKind,
    pub bic_key: i64,
    pub bic_plus2_key: i64,
}

/// The tolerance key never lies below the criterion key (adding two
/// points cannot lower the criterion).
pub open spec fn fit_scores_wf(fits: Seq<FitScore>) -> bool {
    forall|k: int| 0 <= k < fits.len() ==> (#[trigger] fits[k]).bic_plus2_key >= fits[k].bic_key
}

/// Position `b` holds the first fit attaining the least criterion.
pub open spec fn is_first_min(fits: Seq<FitScore>, b: int) -> bool {
    &&& 0 <= b < fits.len()
    &&& forall|q: int| 0 <= q < fits.len() ==> fits[b].bic_key <= (#[trigger] fits[q]).bic_key
    &&& forall|q: int| 0 <= q < b ==> (#[trigger] fits[q]).bic_key > fits[b].bic_key
}

/// Position of the first fit of the given kind, if any.
pub open spec fn first_of_kind(fits: Seq<FitScore>, kind: ModelKind) -> Option<int>
    decreases fits.len(),
{
    if fits.len() == 0 {
        Option::None
    } else if fits[0].kind == kind {
        Option::Some(0int)
    } else {
        match first_of_kind(fits.drop_first(), kind) {
            Option::Some(p) => Option::Some(p + 1),
            Option::None => Option::None,
        }
    }
}

/// The first fit of the given kind, when it lies within the simplicity
/// tolerance of the best fit.
pub open spec fn try_kind(fits: Seq<FitScore>, b: int, kind: ModelKind) -> Option<int> {
    match first_of_kind(fits, kind) {
        Option::Some(p) => if fits[p].bic_key <= fits[b].bic_plus2_key {
            Option::Some(p)
        } else {
            Option::None
        },
        Option::None => Option::None,
    }
}

/// The selection rule, given the position `b` of the best fit: walk the
/// orders simplest first and return the first whose leading fit lies
/// within two points of the best; fall back to the best itself.
pub open spec fn spec_select_from(fits: Seq<FitScore>, b: int) -> int {
    match try_kind(fits, b, ModelKind::Ns) {
        Option::Some(p) => p,
        Option::None => match try_kind(fits, b, ModelKind::Nss) {
            Option::Some(p) => p,
            Option::None => match try_kind(fits, b, ModelKind::Nssc) {
                Option::Some(p) => p,
                Option::None => b,
            },
        },
    }
}

/// `r` is the outcome of the selection rule for `fits`.
pub open spec fn selection_ok(fits: Seq<FitScore>, r: int) -> bool {
    exists|b: int| #[trigger] is_first_min(fits, b) && r == spec_select_from(fits, b)
}

proof fn lemma_first_of_kind_some(fits: Seq<FitScore>, kind: ModelKind, p: int)
    requires
        0 <= p < fits.len(),
        fits[p].kind == kind,
        forall|q: int| 0 <= q < p ==> (#[trigger] fits[q]).kind != kind,
    ensures
        first_of_kind(fits, kind) == Option::Some(p),
    decreases p,
{
    if p == 0 {
    } else {
        assert(fits.drop_first()[p - 1] == fits[p]);
        assert forall|q: int| 0 <= q < p - 1 implies (#[trigger] fits.drop_first()[q]).kind
            != kind by {
            assert(fits.drop_first()[q] == fits[q + 1]);
        }
        lemma_first_of_kind_some(fits.drop_first(), kind, p - 1);
    }
}

proof fn lemma_first_of_kind_none(fits: Seq<FitScore>, kind: ModelKind)
    requires
        forall|q: int| 0 <= q < fits.len() ==> (#[trigger] fits[q]).kind != kind,
    ensures
        first_of_kind(fits, kind) == Option::None::<int>,
    decreases fits.len(),
{
    if fits.len() == 0 {
    } else {
        assert forall|q: int| 0 <= q < fits.drop_first().len() implies (#[trigger] fits.drop_first()[q]).kind
            != kind by {
            assert(fits.drop_first()[q] == fits[q + 1]);
        }
        lemma_first_of_kind_none(fits.drop_first(), kind);
    }
}

proof fn lemma_first_of_kind_in_range(fits: Seq<FitScore>, kind: ModelKind)
    ensures
        match first_of_kind(fits, kind) {
            Option::Some(p) => 0 <= p < fits.len() && fits[p].kind == kind,
            Option::None => true,
        },
    decreases fits.len(),
{
    if fits.len() == 0 {
    } else if fits[0].kind == kind {
    } else {
        lemma_first_of_kind_in_range(fits.drop_first(), kind);
        if let Option::Some(p) = first_of_kind(fits.drop_first(), kind) {
            assert(fits.drop_first()[p] == fits[p + 1]);
        }
    }
}

/// Find the position of the first fit of `kind`.
fn find_first_of_kind(fits: &Vec<FitScore>, kind: ModelKind) -> (r: Option<usize>)
    ensures
        match r {
            Some(p) => first_of_kind(fits@, kind) == Option::Some(p as int),
            None => first_of_kind(fits@, kind) == Option::None::<int>,
        },
{
    let mut q: usize = 0;
    while q < fits.len()
        invariant
            q <= fits@.len(),
            forall|t: int| 0 <= t < q ==> (#[trigger] fits@[t]).kind != kind,
        decreases fits@.len() - q,
    {
        if fits[q].kind == kind {
            proof {
                lemma_first_of_kind_some(fits@, kind, q as int);
            }
            return Some(q);
        }
        q = q + 1;
    }
    proof {
        lemma_first_of_kind_none(fits@, kind);
    }
    None
}

/// Select among the fitted orders: least criterion wins, but any simpler
/// order whose leading fit lies within two points of the best is
/// preferred, simplest first. Exact criterion ties at the minimum go to
/// the earlier fit.
pub fn select_by_bic(fits: &Vec<FitScore>) -> (r: usize)
    requires
        fits@.len() > 0,
        fit_scores_wf(fits@),
    ensures
        r < fits@.len(),
        selection_ok(fits@, r as int),
{
    let mut b: usize = 0;
    let mut q: usize = 1;
    while q < fits.len()
        invariant
            b < q <= fits@.len(),
            forall|t: int| 0 <= t < q ==> fits@[b as int].bic_key <= (#[trigger] fits@[t]).bic_key,
            forall|t: int| 0 <= t < b ==> (#[trigger] fits@[t]).bic_key > fits@[b as int].bic_key,
        decreases fits@.len() - q,
    {
        if fits[q].bic_key < fits[b].bic_key {
            b = q;
        }
        q = q + 1;
    }
    proof {
        assert(is_first_min(fits@, b as int));
    }

    let ghost bi = b as int;
    if let Some(p) = find_first_of_kind(fits, ModelKind::Ns) {
        proof {
            lemma_first_of_kind_in_range(fits@, ModelKind::Ns);
        }
        if fits[p].bic_key <= fits[b].bic_plus2_key {
            proof {
                assert(spec_select_from(fits@, bi) == p as int);
            }
            return p;
        }
    }
    if let Some(p) = find_first_of_kind(fits, ModelKind::Nss) {
        proof {
            lemma_first_of_kind_in_range(fits@, ModelKind::Nss);
        }
        if fits[p].bic_key <= fits[b].bic_plus2_key {
            proof {
                assert(spec_select_from(fits@, bi) == p as int);
            }
            return p;
        }
    }
    if let Some(p) = find_first_of_kind(fits, ModelKind::Nssc) {
        proof {
            lemma_first_of_kind_in_range(fits@, ModelKind::Nssc);
        }
        if fits[p].bic_key <= fits[b].bic_plus2_key {
            proof {
                assert(spec_select_from(fits@, bi) == p as int);
            }
            return p;
        }
    }
    proof {
        assert(spec_select_from(fits@, bi) == bi);
    }
    b
}

/// A single requested order is returned as it stands; otherwise the
/// selection rule runs. No fit at all is a data failure.
pub open spec fn single_order(ms: ModelSpec) -> bool {
    ms is Ns || ms is Nss || ms is Nssc
}

pub fn select_fit(ms: ModelSpec, fits: &Vec<FitScore>) -> (r: Result<usize, AppError>)
    requires
        fit_scores_wf(fits@),
    ensures
        (fits@.len() == 0) <==> r is Err,
        r matches Err(e) ==> e.spec_exit_code() == 3 && e.spec_message()
            == "Insufficient data to fit any model after guardrails."@,
        r matches Ok(p) ==> p < fits@.len(),
        r matches Ok(p) ==> (single_order(ms) ==> p == 0),
        r matches Ok(p) ==> (!single_order(ms) ==> selection_ok(fits@, p as int)),
{
    if fits.len() == 0 {
        return Err(
            AppError::new(
                3,
                String::from_str("Insufficient data to fit any model after guardrails."),
            ),
        );
    }
    match ms {
        ModelSpec::Ns | ModelSpec::Nss | ModelSpec::Nssc => Ok(0),
        ModelSpec::Auto | ModelSpec::All => Ok(select_by_bic(fits)),
    }
}

/// Simplicity preference: when the first fit of the simplest order lies
/// within the two-point tolerance of every attempted fit -- in
/// particular of the best one -- the selection rule returns it, even
/// when a more complex fit has a strictly lower criterion.
pub proof fn lemma_prefers_simpler(fits: Seq<FitScore>, r: int, p: int)
    requires
        fit_scores_wf(fits),
        selection_ok(fits, r),
        0 <= p < fits.len(),
        fits[p].kind is Ns,
        forall|q: int| 0 <= q < p ==> !((#[trigger] fits[q]).kind is Ns),
        forall|q: int|
            0 <= q < fits.len() ==> fits[p].bic_key <= (#[trigger] fits[q]).bic_plus2_key,
    ensures
        r == p,
{
    let b = choose|b: int| #[trigger] is_first_min(fits, b) && r == spec_select_from(fits, b);
    lemma_first_of_kind_some(fits, ModelKind::Ns, p);
    assert(fits[p].bic_key <= fits[b].bic_plus2_key);
    assert(spec_select_from(fits, b) == p);
}

/// The two-order instance of the simplicity preference: with exactly a
/// simplest-order fit and a more complex one on the table, the simpler
/// fit is selected whenever its criterion lies within two points of the
/// complex one's -- even when the complex fit's criterion is strictly
/// lower.
pub proof fn lemma_prefers_simpler_of_two(fits: Seq<FitScore>, r: int)
    requires
        fit_scores_wf(fits),
        selection_ok(fits, r),
        fits.len() == 2,
        fits[0].kind is Ns,
        fits[1].kind is Nss,
        fits[0].bic_key <= fits[1].bic_plus2_key,
    ensures
        r == 0,
{
    lemma_prefers_simpler(fits, r, 0);
}

/// Underdetermination guard: when every attempted fit belongs to an
/// eligible order, whatever the selection rule returns belongs to an
/// eligible order; a skipped order can never be selected.
pub proof fn lemma_selected_is_eligible(fits: Seq<FitScore>, r: int, n: nat)
    requires
        0 <= r < fits.len(),
        forall|k: int| 0 <= k < fits.len() ==> eligible((#[trigger] fits[k]).kind, n),
    ensures
        eligible(fits[r].kind, n),
{
}

} // verus!
