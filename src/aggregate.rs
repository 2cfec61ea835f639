use vstd::prelude::*;

use crate::error::Error;
use crate::metrics::{
    coverage_percent, crap, crap_value, percent_value, scale, scaled, skunk_nosmells, skunk_value,
    Metrics, NUMERATOR_LIMIT, PERCENT_HUNDREDTHS,
};

verus! {

/// Partial sums over a set of processed files. Project scores are computed
/// from these sums, never by averaging per-file scores.
#[derive(Debug, Clone, Copy, PartialEq, Eq, Structural)]
pub struct AggregationState {
    pub covered_lines: u64,
    pub total_lines: u64,
    pub sifis_plain_sum: u128,
    pub sifis_quantized_sum: u128,
    pub ploc_sum: u64,
    pub comp_sum: u64,
}

/// The mathematical content of an `AggregationState`: its six sums, in the
/// order of its fields.
pub type Totals = (nat, nat, nat, nat, nat, nat);

impl View for AggregationState {
    type V = Totals;

    open spec fn view(&self) -> Totals {
        (
            self.covered_lines as nat,
            self.total_lines as nat,
            self.sifis_plain_sum as nat,
            self.sifis_quantized_sum as nat,
            self.ploc_sum as nat,
            self.comp_sum as nat,
        )
    }
}

impl AggregationState {
    /// No file has more covered lines than executable ones.
    pub open spec fn wf(&self) -> bool {
        self.covered_lines <= self.total_lines
    }
}

/// Field-wise sum.
pub open spec fn plus(a: Totals, b: Totals) -> Totals {
    (a.0 + b.0, a.1 + b.1, a.2 + b.2, a.3 + b.3, a.4 + b.4, a.5 + b.5)
}

/// The all-zero sums.
pub open spec fn zero() -> Totals {
    (0, 0, 0, 0, 0, 0)
}

/// Field-wise sum of a sequence of sums.
pub open spec fn total(s: Seq<Totals>) -> Totals
    decreases s.len(),
{
    if s.len() == 0 {
        zero()
    } else {
        plus(total(s.drop_last()), s.last())
    }
}

/// The sums of a sequence of states.
pub open spec fn views(s: Seq<AggregationState>) -> Seq<Totals> {
    s.map_values(|a: AggregationState| a@)
}

/// Whether sums fit the fields of an `AggregationState`.
pub open spec fn fits(a: Totals) -> bool {
    a.0 <= u64::MAX && a.1 <= u64::MAX && a.2 <= u128::MAX && a.3 <= u128::MAX && a.4 <= u64::MAX
        && a.5 <= u64::MAX
}

/// Every field of `a` is at most the same field of `b`.
pub open spec fn le(a: Totals, b: Totals) -> bool {
    a.0 <= b.0 && a.1 <= b.1 && a.2 <= b.2 && a.3 <= b.3 && a.4 <= b.4 && a.5 <= b.5
}

/// Summing two parts separately and then their results gives the sum of the
/// whole: the reduction does not depend on how the files were split.
pub proof fn lemma_total_split(a: Seq<Totals>, b: Seq<Totals>)
    ensures
        total(a + b) == plus(total(a), total(b)),
    decreases b.len(),
{
    if b.len() == 0 {
        assert(a + b =~= a);
    } else {
        assert((a + b).drop_last() =~= a + b.drop_last());
        lemma_total_split(a, b.drop_last());
    }
}

/// The reduction does not depend on the order in which the partial states
/// arrive.
pub proof fn lemma_total_commutes(a: Seq<Totals>, b: Seq<Totals>)
    ensures
        total(a + b) == total(b + a),
{
    lemma_total_split(a, b);
    lemma_total_split(b, a);
}

/// Two workers that each reduce one part of the files, with the composer
/// then reducing their two states, reach the same sums, and so the same
/// project row, as a single reduction over all the files, whichever worker
/// reports first.
pub proof fn lemma_partition_invariance(a: Seq<Totals>, b: Seq<Totals>, project_percent: Option<u64>)
    ensures
        total(seq![total(a), total(b)]) == total(a + b),
        total(seq![total(b), total(a)]) == total(a + b),
        ({
            let whole = total(a + b);
            let split = total(seq![total(a), total(b)]);
            let (k, t) = project_coverage_pair(whole, project_percent);
            let (k2, t2) = project_coverage_pair(split, project_percent);
            project_spec(split, k2, t2) == project_spec(whole, k, t)
        }),
{
    lemma_total_split(a, b);
    lemma_total_commutes(a, b);
    lemma_total_split(b, a);
    lemma_total_pair(total(a), total(b));
    lemma_total_pair(total(b), total(a));
}

proof fn lemma_total_pair(x: Totals, y: Totals)
    ensures
        total(seq![x, y]) == plus(x, y),
{
    let two = seq![x, y];
    let one = seq![x];
    assert(two.drop_last() =~= one);
    assert(one.drop_last() =~= Seq::<Totals>::empty());
    assert(total(Seq::<Totals>::empty()) == zero());
    assert(total(one) == plus(zero(), x));
    assert(plus(zero(), x) == x);
    assert(two.last() == y);
}

/// The percentage that a report publishes for covered lines `k` out of `t`,
/// in hundredths of a percent, rounded half up.
pub open spec fn published_percent(k: int, t: int) -> int {
    (20000 * k + t) / (2 * t)
}

/// Where a report publishes, for the same lines, the percentage rounded to
/// hundredths, the percentage derived from the summed line counts agrees
/// with it to within half a hundredth of a percent (5000 millionths).
pub proof fn lemma_derived_matches_published(k: u64, t: u64)
    requires
        0 < t,
        k <= t,
    ensures
        ({
            let derived = percent_value(k as int, t as int);
            let published = published_percent(k as int, t as int) * 10000;
            -5000 <= derived - published < 5000
        }),
{
    let ki = k as int;
    let ti = t as int;
    let p = published_percent(ki, ti);
    let q = percent_value(ki, ti);
    assert(q == 100000000 * ki / ti);
    assert(2 * ti * p <= 20000 * ki + ti < 2 * ti * p + 2 * ti) by (nonlinear_arith)
        requires
            p == (20000 * ki + ti) / (2 * ti),
            ti > 0,
    ;
    assert(ti * q <= 100000000 * ki < ti * q + ti) by (nonlinear_arith)
        requires
            q == 100000000 * ki / ti,
            ti > 0,
    ;
    assert(10000 * p <= q + 5000) by (nonlinear_arith)
        requires
            2 * ti * p <= 20000 * ki + ti,
            100000000 * ki < ti * q + ti,
            ti > 0,
    ;
    assert(q < 10000 * p + 5000) by (nonlinear_arith)
        requires
            20000 * ki + ti < 2 * ti * p + 2 * ti,
            ti * q <= 100000000 * ki,
            ti > 0,
    ;
}

/// A prefix never sums to more than the whole.
pub proof fn lemma_total_prefix(s: Seq<Totals>, i: int)
    requires
        0 <= i <= s.len(),
    ensures
        le(total(s.subrange(0, i)), total(s)),
{
    lemma_total_split(s.subrange(0, i), s.subrange(i, s.len() as int));
    assert(s.subrange(0, i) + s.subrange(i, s.len() as int) =~= s);
}

/// The project scores for sums `a` and a coverage of `k / t`.
pub open spec fn project_spec(a: Totals, k: int, t: int) -> Metrics {
    Metrics {
        sifis_plain: scaled(a.2 as int, a.4 as int) as u128,
        sifis_quantized: scaled(a.3 as int, a.4 as int) as u128,
        crap: crap_value(a.5 as int, k, t) as u128,
        skunk: skunk_value(a.5 as int, k, t) as u128,
        is_complex: false,
        coverage: percent_value(k, t) as u128,
    }
}

/// The coverage the project row uses: the report's own project percentage
/// (in hundredths) where it gives one, else covered over executable lines.
pub open spec fn project_coverage_pair(a: Totals, project_percent: Option<u64>) -> (int, int) {
    match project_percent {
        Some(p) => (p as int, PERCENT_HUNDREDTHS as int),
        None => (a.0 as int, a.1 as int),
    }
}

impl AggregationState {
    /// The empty state.
    pub fn new() -> (r: AggregationState)
        ensures
            r@ == zero(),
            r.wf(),
    {
        AggregationState {
            covered_lines: 0,
            total_lines: 0,
            sifis_plain_sum: 0,
            sifis_quantized_sum: 0,
            ploc_sum: 0,
            comp_sum: 0,
        }
    }

    /// Adds `other` to this state; fails, leaving it unchanged, where a sum
    /// does not fit.
    pub fn merge(&mut self, other: &AggregationState) -> (r: Result<(), Error>)
        ensures
            r is Ok <==> fits(plus(old(self)@, other@)),
            r is Ok ==> final(self)@ == plus(old(self)@, other@),
            r is Err ==> *final(self) == *old(self) && r == Err::<(), Error>(
                Error::OverflowError(),
            ),
            old(self).wf() && other.wf() ==> final(self).wf(),
    {
        let a = self.covered_lines.checked_add(other.covered_lines);
        let b = self.total_lines.checked_add(other.total_lines);
        let c = self.sifis_plain_sum.checked_add(other.sifis_plain_sum);
        let d = self.sifis_quantized_sum.checked_add(other.sifis_quantized_sum);
        let e = self.ploc_sum.checked_add(other.ploc_sum);
        let f = self.comp_sum.checked_add(other.comp_sum);
        match (a, b, c, d, e, f) {
            (Some(a), Some(b), Some(c), Some(d), Some(e), Some(f)) => {
                *self =
                AggregationState {
                    covered_lines: a,
                    total_lines: b,
                    sifis_plain_sum: c,
                    sifis_quantized_sum: d,
                    ploc_sum: e,
                    comp_sum: f,
                };
                Ok(())
            },
            _ => Err(Error::OverflowError()),
        }
    }
}

/// Reduces the states that the workers sent into one; fails where a sum
/// over all of them does not fit.
pub fn composer(states: &Vec<AggregationState>) -> (r: Result<AggregationState, Error>)
    ensures
        r is Ok <==> fits(total(views(states@))),
        r matches Ok(s) ==> s@ == total(views(states@)),
        r matches Ok(s) ==> ((forall|i: int| 0 <= i < states@.len() ==> (#[trigger] states@[i]).wf())
            ==> s.wf()),
        r is Err ==> r == Err::<AggregationState, Error>(Error::OverflowError()),
{
    let mut acc = AggregationState::new();
    let mut i: usize = 0;
    while i < states.len()
        invariant
            i <= states@.len(),
            acc@ == total(views(states@).subrange(0, i as int)),
            (forall|j: int| 0 <= j < states@.len() ==> (#[trigger] states@[j]).wf()) ==> acc.wf(),
        decreases states@.len() - i,
    {
        let ghost pre = views(states@).subrange(0, i as int + 1);
        assert(pre.drop_last() =~= views(states@).subrange(0, i as int));
        assert(pre.last() == states@[i as int]@);
        match acc.merge(&states[i]) {
            Ok(()) => {},
            Err(e) => {
                proof {
                    lemma_total_prefix(views(states@), i as int + 1);
                }
                return Err(e);
            },
        }
        i = i + 1;
    }
    assert(views(states@).subrange(0, states@.len() as int) =~= views(states@));
    Ok(acc)
}

/// The project row: scores recomputed from the reduced sums, with the
/// report's own project percentage (hundredths) as coverage where given.
/// Fails where the total complexity exceeds `u32::MAX` or a numerator
/// reaches `NUMERATOR_LIMIT`.
pub fn get_project_metrics(state: &AggregationState, project_percent: Option<u64>) -> (r: Result<
    Metrics,
    Error,
>)
    requires
        state.wf(),
        project_percent matches Some(p) ==> p <= PERCENT_HUNDREDTHS,
    ensures
        r is Ok <==> (state.comp_sum <= u32::MAX && state.sifis_plain_sum < NUMERATOR_LIMIT
            && state.sifis_quantized_sum < NUMERATOR_LIMIT),
        r is Err ==> r == Err::<Metrics, Error>(Error::OverflowError()),
        r matches Ok(m) ==> m == project_spec(
            state@,
            project_coverage_pair(state@, project_percent).0,
            project_coverage_pair(state@, project_percent).1,
        ),
{
    if state.comp_sum > u32::MAX as u64 || state.sifis_plain_sum >= NUMERATOR_LIMIT
        || state.sifis_quantized_sum >= NUMERATOR_LIMIT {
        return Err(Error::OverflowError());
    }
    let (k, t) = match project_percent {
        Some(p) => (p, PERCENT_HUNDREDTHS),
        None => (state.covered_lines, state.total_lines),
    };
    let comp = state.comp_sum as u32;
    let plain = scale(state.sifis_plain_sum, state.ploc_sum as u128);
    let quantized = scale(state.sifis_quantized_sum, state.ploc_sum as u128);
    Ok(
        Metrics {
            sifis_plain: plain,
            sifis_quantized: quantized,
            crap: crap(comp, k, t),
            skunk: skunk_nosmells(comp, k, t),
            is_complex: false,
            coverage: coverage_percent(k, t),
        },
    )
}

} // verus!
