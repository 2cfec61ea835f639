use vstd::prelude::*;

use crate::coverage::{
    covered_count, executable_count, get_covered_lines, in_range, is_covered,
    lemma_covered_le_executable, CoverageLine,
};
use crate::error::Error;
use crate::scope::{comp_self, comp_sum, min_scope, ScopeTree};
use crate::utility::Complexity;

verus! {

/// Scores are integers in millionths: a score of 1.2 is held as 1_200_000.
pub const MICRO: u128 = 1_000_000;

/// Complexity above which a covered line weighs 2 instead of 1 in the
/// quantized score.
pub const QUANTIZED_THRESHOLD: u32 = 15;

/// Numerators (2^100) that the project scores refuse: far beyond any
/// real project, and small enough that scaling them to millionths fits.
pub const NUMERATOR_LIMIT: u128 = 0x10000000000000000000000000;

/// The denominator of a coverage percentage given in hundredths of a
/// percent (10000 stands for 100%).
pub const PERCENT_HUNDREDTHS: u64 = 10000;

/// `num / den` in millionths, rounded down; 0 where `den` is 0.
pub open spec fn scaled(num: int, den: int) -> int {
    if den == 0 {
        0
    } else {
        num * MICRO / den
    }
}

/// The weight of one covered line whose smallest enclosing scope has the
/// given complexity.
pub open spec fn line_weight(comp: u32) -> nat {
    if comp > QUANTIZED_THRESHOLD {
        2
    } else {
        1
    }
}

/// Sum, over the covered lines in the range of scope `n`, of the weight of
/// each line's smallest enclosing scope under `n`.
pub open spec fn quantized_sum(
    nodes: Seq<crate::scope::ScopeNode>,
    n: int,
    lines: Seq<CoverageLine>,
    c: Complexity,
) -> nat
    decreases lines.len(),
{
    if lines.len() == 0 {
        0
    } else {
        let line = lines.len() as int;
        quantized_sum(nodes, n, lines.drop_last(), c) + if in_range(
            line,
            nodes[n].start_line as int,
            nodes[n].end_line as int,
        ) && is_covered(lines.last()) {
            line_weight(comp_self(nodes[min_scope(nodes, n, line)], c))
        } else {
            0
        }
    }
}

/// The numerator of the plain score of scope `n`: its total complexity once
/// for every covered line in its range.
pub open spec fn plain_numerator(
    nodes: Seq<crate::scope::ScopeNode>,
    n: int,
    lines: Seq<CoverageLine>,
    c: Complexity,
) -> int {
    comp_sum(nodes[n], c) * covered_count(lines, nodes[n].start_line as int, nodes[n].end_line as int)
}

/// `1 - k / t` in millionths, rounded down; a coverage with `t == 0` counts
/// as none.
pub open spec fn uncovered_fraction(k: int, t: int) -> int {
    if t == 0 {
        MICRO as int
    } else {
        (t - k) * MICRO / t
    }
}

/// The CRAP score in millionths for complexity `c` and coverage `k / t`:
/// `c² · (1 − cov)³ + c`, where `1 − cov` is first rounded down to
/// millionths and the cubed term is then rounded down, so that every
/// intermediate value fits a `u128` (an exact floor of the whole formula
/// would need products of about 280 bits). The result may thus fall short
/// of the exact score by up to about `3·c²` millionths.
pub open spec fn crap_value(c: int, k: int, t: int) -> int {
    let g = uncovered_fraction(k, t);
    c * MICRO + c * c * (g * g * g) / (MICRO * MICRO)
}

/// The stink score in millionths for complexity `c` and coverage `k / t`:
/// `c / 25` at full coverage, else `(c / 25) · (100 − coverage%)`.
pub open spec fn skunk_value(c: int, k: int, t: int) -> int {
    if t > 0 && k == t {
        c * MICRO / 25
    } else if t == 0 {
        4 * c * MICRO
    } else {
        4 * c * (t - k) * MICRO / t
    }
}

/// The coverage `k / t` as a percentage in millionths; 0 where `t == 0`.
pub open spec fn percent_value(k: int, t: int) -> int {
    if t == 0 {
        0
    } else {
        100 * k * MICRO / t
    }
}

/// The four scores of an entity, its classification and its coverage
/// percentage, all in millionths.
#[derive(Debug, Clone, Copy, PartialEq, Eq, Structural)]
pub struct Metrics {
    pub sifis_plain: u128,
    pub sifis_quantized: u128,
    pub crap: u128,
    pub skunk: u128,
    pub is_complex: bool,
    pub coverage: u128,
}

/// The four thresholds, in millionths, above which an entity is complex.
#[derive(Debug, Clone, Copy, PartialEq, Eq, Structural)]
pub struct ThresholdVector {
    pub sifis_plain: u128,
    pub sifis_quantized: u128,
    pub crap: u128,
    pub skunk: u128,
}

/// Whether scores are complex: at least one of the four strictly exceeds
/// its threshold.
pub open spec fn complex_spec(
    sifis_plain: u128,
    sifis_quantized: u128,
    crap: u128,
    skunk: u128,
    t: ThresholdVector,
) -> bool {
    sifis_plain > t.sifis_plain || sifis_quantized > t.sifis_quantized || crap > t.crap || skunk
        > t.skunk
}

impl ThresholdVector {
    /// Reads the thresholds in the order plain, quantized, CRAP, stink;
    /// anything but exactly four values is refused.
    pub fn from_values(v: &Vec<u128>) -> (r: Result<ThresholdVector, Error>)
        ensures
            v@.len() != 4 ==> r == Err::<ThresholdVector, Error>(Error::ThresholdsError()),
            v@.len() == 4 ==> r == Ok::<ThresholdVector, Error>(
                ThresholdVector {
                    sifis_plain: v@[0],
                    sifis_quantized: v@[1],
                    crap: v@[2],
                    skunk: v@[3],
                },
            ),
    {
        if v.len() != 4 {
            return Err(Error::ThresholdsError());
        }
        Ok(ThresholdVector { sifis_plain: v[0], sifis_quantized: v[1], crap: v[2], skunk: v[3] })
    }
}

impl Metrics {
    /// Metrics from their parts.
    pub fn new(
        sifis_plain: u128,
        sifis_quantized: u128,
        crap: u128,
        skunk: u128,
        is_complex: bool,
        coverage: u128,
    ) -> (r: Metrics)
        ensures
            r == (Metrics { sifis_plain, sifis_quantized, crap, skunk, is_complex, coverage }),
    {
        Metrics { sifis_plain, sifis_quantized, crap, skunk, is_complex, coverage }
    }

    /// The starting point of a column-wise minimum: every score at its
    /// largest value and full coverage.
    pub fn min() -> (r: Metrics)
        ensures
            r == (Metrics {
                sifis_plain: u128::MAX,
                sifis_quantized: u128::MAX,
                crap: u128::MAX,
                skunk: u128::MAX,
                is_complex: false,
                coverage: 100_000_000u128,
            }),
    {
        Metrics {
            sifis_plain: u128::MAX,
            sifis_quantized: u128::MAX,
            crap: u128::MAX,
            skunk: u128::MAX,
            is_complex: false,
            coverage: 100 * MICRO,
        }
    }
}

/// Whether the scores exceed any of their thresholds.
pub fn check_complexity(
    sifis_plain: u128,
    sifis_quantized: u128,
    crap: u128,
    skunk: u128,
    thresholds: &ThresholdVector,
) -> (r: bool)
    ensures
        r == complex_spec(sifis_plain, sifis_quantized, crap, skunk, *thresholds),
{
    sifis_plain > thresholds.sifis_plain || sifis_quantized > thresholds.sifis_quantized || crap
        > thresholds.crap || skunk > thresholds.skunk
}

/// The chosen complexity of scope `n` and its descendants.
pub fn scope_comp_sum(tree: &ScopeTree, n: usize, c: Complexity) -> (r: u32)
    requires
        n < tree.nodes@.len(),
    ensures
        r == comp_sum(tree.nodes@[n as int], c),
{
    match c {
        Complexity::Cyclomatic => tree.nodes[n].cyclomatic_sum,
        Complexity::Cognitive => tree.nodes[n].cognitive_sum,
    }
}

/// The chosen complexity of scope `n` alone.
pub fn scope_comp_self(tree: &ScopeTree, n: usize, c: Complexity) -> (r: u32)
    requires
        n < tree.nodes@.len(),
    ensures
        r == comp_self(tree.nodes@[n as int], c),
{
    match c {
        Complexity::Cyclomatic => tree.nodes[n].cyclomatic,
        Complexity::Cognitive => tree.nodes[n].cognitive,
    }
}

/// `num / den` in millionths, rounded down, for a numerator below
/// `NUMERATOR_LIMIT`.
pub(crate) fn scale(num: u128, den: u128) -> (r: u128)
    requires
        num < NUMERATOR_LIMIT,
    ensures
        r == scaled(num as int, den as int),
{
    if den == 0 {
        return 0;
    }
    assert(num * MICRO < 0x1000000000000000000000000000000) by (nonlinear_arith)
        requires
            num < 0x10000000000000000000000000,
    ;
    num * MICRO / den
}

/// The plain score of scope `n`: its total complexity added once for every
/// covered line in its range, divided by its physical lines (0 where it has
/// none). Returns the numerator and the score.
pub fn sifis_plain(tree: &ScopeTree, n: usize, lines: &Vec<CoverageLine>, c: Complexity) -> (r: (
    u128,
    u128,
))
    requires
        n < tree.nodes@.len(),
    ensures
        r.0 == plain_numerator(tree.nodes@, n as int, lines@, c),
        r.1 == scaled(r.0 as int, tree.nodes@[n as int].ploc as int),
{
    let node = &tree.nodes[n];
    let (covered, _total) = get_covered_lines(lines, node.start_line, node.end_line);
    let comp = scope_comp_sum(tree, n, c);
    assert(comp as u128 * covered as u128 <= 0xffffffff * 0xffffffffffffffffu128) by (
    nonlinear_arith)
        requires
            comp <= 0xffffffff,
            covered <= 0xffffffffffffffffu64,
    ;
    let num = comp as u128 * covered as u128;
    let value = scale(num, node.ploc as u128);
    (num, value)
}

/// The quantized score of scope `n`: every covered line in its range weighs
/// 2 where its smallest enclosing scope is more complex than
/// `QUANTIZED_THRESHOLD`, else 1; the sum is divided by the physical lines
/// of `n` (0 where it has none). Returns the numerator and the score.
pub fn sifis_quantized(tree: &ScopeTree, n: usize, lines: &Vec<CoverageLine>, c: Complexity) -> (r: (
    u128,
    u128,
))
    requires
        tree.wf(),
        n < tree.nodes@.len(),
    ensures
        r.0 == quantized_sum(tree.nodes@, n as int, lines@, c),
        r.1 == scaled(r.0 as int, tree.nodes@[n as int].ploc as int),
{
    let start = tree.nodes[n].start_line;
    let end = tree.nodes[n].end_line;
    let mut sum: u128 = 0;
    let mut i: usize = 0;
    while i < lines.len()
        invariant
            tree.wf(),
            n < tree.nodes@.len(),
            start == tree.nodes@[n as int].start_line,
            end == tree.nodes@[n as int].end_line,
            i <= lines@.len(),
            sum == quantized_sum(tree.nodes@, n as int, lines@.subrange(0, i as int), c),
            sum <= 2 * i,
        decreases lines@.len() - i,
    {
        let ghost pre = lines@.subrange(0, i as int + 1);
        assert(pre.drop_last() =~= lines@.subrange(0, i as int));
        let line = i + 1;
        if start <= line && line <= end {
            if let CoverageLine::Hits(h) = lines[i] {
                if h > 0 {
                    let m = tree.minimum_enclosing_scope(n, line);
                    if scope_comp_self(tree, m, c) > QUANTIZED_THRESHOLD {
                        sum = sum + 2;
                    } else {
                        sum = sum + 1;
                    }
                }
            }
        }
        i = i + 1;
    }
    assert(lines@.subrange(0, lines@.len() as int) =~= lines@);
    let value = scale(sum, tree.nodes[n].ploc as u128);
    (sum, value)
}

/// `1 - k / t` in millionths, rounded down.
fn uncovered(k: u64, t: u64) -> (r: u128)
    requires
        k <= t,
    ensures
        r == uncovered_fraction(k as int, t as int),
        r <= MICRO,
{
    if t == 0 {
        return MICRO;
    }
    let u = (t - k) as u128;
    assert(u * MICRO <= t as u128 * MICRO) by (nonlinear_arith)
        requires
            u <= t,
    ;
    assert(t as u128 * MICRO < 0x1000000000000000000000000000) by (nonlinear_arith)
        requires
            t <= 0xffffffffffffffffu64,
    ;
    let r = u * MICRO / t as u128;
    assert(r <= MICRO) by (nonlinear_arith)
        requires
            r == u * MICRO / (t as int),
            u <= t,
            t > 0,
    ;
    r
}

/// The CRAP score of complexity `c` at coverage `k / t` (no coverage where
/// `t == 0`): `c² · (1 − cov)³ + c`, in millionths, with `1 − cov` first
/// rounded down to millionths.
pub fn crap(c: u32, k: u64, t: u64) -> (r: u128)
    requires
        k <= t,
    ensures
        r == crap_value(c as int, k as int, t as int),
{
    let g = uncovered(k, t);
    let c = c as u128;
    assert(g * g * g <= MICRO * MICRO * MICRO) by (nonlinear_arith)
        requires
            g <= MICRO,
    ;
    assert(c * c * (g * g * g) <= 0xffffffff * 0xffffffff * (MICRO * MICRO * MICRO)) by (
    nonlinear_arith)
        requires
            c <= 0xffffffff,
            g * g * g <= MICRO * MICRO * MICRO,
    ;
    assert(g * g <= MICRO * MICRO) by (nonlinear_arith)
        requires
            g <= MICRO,
    ;
    assert(c * c <= 0xffffffff * 0xffffffff) by (nonlinear_arith)
        requires
            c <= 0xffffffff,
    ;
    let cube = g * g * g;
    assert(c * c * cube <= 20000000000000000000000000000000000000u128) by (nonlinear_arith)
        requires
            c * c <= 0xffffffff * 0xffffffff,
            cube <= 1000000000000000000,
    ;
    let penalty = c * c * cube / (MICRO * MICRO);
    assert(penalty <= c * c * cube) by (nonlinear_arith)
        requires
            penalty == c * c * cube / (MICRO * MICRO),
    ;
    c * MICRO + penalty
}

/// The stink score of complexity `c` at coverage `k / t` (no coverage where
/// `t == 0`), smells left out: `c / 25` at full coverage, else
/// `(c / 25) · (100 − coverage%)`, in millionths.
pub fn skunk_nosmells(c: u32, k: u64, t: u64) -> (r: u128)
    requires
        k <= t,
    ensures
        r == skunk_value(c as int, k as int, t as int),
{
    let c = c as u128;
    if t > 0 && k == t {
        c * MICRO / 25
    } else if t == 0 {
        4 * c * MICRO
    } else {
        let u = (t - k) as u128;
        assert(4 * c * u * MICRO <= 4 * 0xffffffff * 0xffffffffffffffffu128 * MICRO) by (
        nonlinear_arith)
            requires
                c <= 0xffffffff,
                u <= 0xffffffffffffffffu128,
        ;
        4 * c * u * MICRO / t as u128
    }
}

/// The coverage `k / t` as a percentage in millionths (0 where `t == 0`).
pub fn coverage_percent(k: u64, t: u64) -> (r: u128)
    requires
        k <= t,
    ensures
        r == percent_value(k as int, t as int),
{
    if t == 0 {
        return 0;
    }
    let k = k as u128;
    assert(100 * k * MICRO <= 100 * 0xffffffffffffffffu128 * MICRO) by (nonlinear_arith)
        requires
            k <= 0xffffffffffffffffu128,
    ;
    100 * k * MICRO / t as u128
}

/// The coverage `(k, t)` that the CRAP and stink scores of scope `n` use:
/// the supplied percentage in hundredths over 10000 where there is one, else
/// the covered over the executable lines in its range.
pub open spec fn coverage_pair(
    nodes: Seq<crate::scope::ScopeNode>,
    n: int,
    lines: Seq<CoverageLine>,
    percent: Option<u64>,
) -> (int, int) {
    match percent {
        Some(p) => (p as int, PERCENT_HUNDREDTHS as int),
        None => (
            covered_count(lines, nodes[n].start_line as int, nodes[n].end_line as int) as int,
            executable_count(lines, nodes[n].start_line as int, nodes[n].end_line as int) as int,
        ),
    }
}

/// All the metrics of scope `n`.
pub open spec fn metrics_of(
    nodes: Seq<crate::scope::ScopeNode>,
    n: int,
    lines: Seq<CoverageLine>,
    c: Complexity,
    percent: Option<u64>,
    t: ThresholdVector,
) -> Metrics {
    let (k, tot) = coverage_pair(nodes, n, lines, percent);
    let comp = comp_sum(nodes[n], c) as int;
    let sp = scaled(plain_numerator(nodes, n, lines, c), nodes[n].ploc as int) as u128;
    let sq = scaled(quantized_sum(nodes, n, lines, c) as int, nodes[n].ploc as int) as u128;
    let cr = crap_value(comp, k, tot) as u128;
    let sk = skunk_value(comp, k, tot) as u128;
    Metrics {
        sifis_plain: sp,
        sifis_quantized: sq,
        crap: cr,
        skunk: sk,
        is_complex: complex_spec(sp, sq, cr, sk, t),
        coverage: percent_value(k, tot) as u128,
    }
}

/// All the metrics of scope `n`, with the numerators of its two plain and
/// quantized scores. `percent`, where given, is the coverage in hundredths
/// of a percent that the report published for the file.
pub fn scope_metrics(
    tree: &ScopeTree,
    n: usize,
    lines: &Vec<CoverageLine>,
    c: Complexity,
    percent: Option<u64>,
    thresholds: &ThresholdVector,
) -> (r: (Metrics, u128, u128))
    requires
        tree.wf(),
        n < tree.nodes@.len(),
        percent matches Some(p) ==> p <= PERCENT_HUNDREDTHS,
    ensures
        r.0 == metrics_of(tree.nodes@, n as int, lines@, c, percent, *thresholds),
        r.1 == plain_numerator(tree.nodes@, n as int, lines@, c),
        r.2 == quantized_sum(tree.nodes@, n as int, lines@, c),
{
    let (plain_num, plain) = sifis_plain(tree, n, lines, c);
    let (quantized_num, quantized) = sifis_quantized(tree, n, lines, c);
    let (k, t) = match percent {
        Some(p) => (p, PERCENT_HUNDREDTHS),
        None => {
            let node = &tree.nodes[n];
            let (covered, total) = get_covered_lines(lines, node.start_line, node.end_line);
            proof {
                lemma_covered_le_executable(lines@, node.start_line as int, node.end_line as int);
            }
            (covered, total)
        },
    };
    let comp = scope_comp_sum(tree, n, c);
    let crap_score = crap(comp, k, t);
    let skunk_score = skunk_nosmells(comp, k, t);
    let is_complex = check_complexity(plain, quantized, crap_score, skunk_score, thresholds);
    let m = Metrics {
        sifis_plain: plain,
        sifis_quantized: quantized,
        crap: crap_score,
        skunk: skunk_score,
        is_complex,
        coverage: coverage_percent(k, t),
    };
    (m, plain_num, quantized_num)
}

/// At full coverage the stink score is exactly the complexity over 25,
/// whatever the complexity.
pub proof fn lemma_skunk_full_coverage(c: u32, t: u64)
    requires
        t > 0,
    ensures
        skunk_value(c as int, t as int, t as int) * 25 == c * MICRO,
        skunk_value(c as int, PERCENT_HUNDREDTHS as int, PERCENT_HUNDREDTHS as int) * 25 == c
            * MICRO,
{
    assert((c * MICRO) % 25 == 0) by (nonlinear_arith)
        requires
            MICRO == 25 * 40000,
    ;
}

/// With no line covered the CRAP score is exactly `c² + c`.
pub proof fn lemma_crap_no_coverage(c: u32, t: u64)
    ensures
        crap_value(c as int, 0, t as int) == (c * c + c) * MICRO,
{
    let ci = c as int;
    if t > 0 {
        assert((t as int - 0) * MICRO / (t as int) == MICRO) by (nonlinear_arith)
            requires
                t > 0,
        ;
    }
    let g = uncovered_fraction(0, t as int);
    assert(g == MICRO);
    assert(ci * ci * (g * g * g) / (MICRO * MICRO) == ci * ci * MICRO) by (nonlinear_arith)
        requires
            g == MICRO,
            MICRO == 1000000,
    ;
    assert(ci * MICRO + ci * ci * MICRO == (ci * ci + ci) * MICRO) by (nonlinear_arith);
}

/// A percentage in millionths rounded half up to hundredths of a percent.
pub open spec fn rounded_percent(x: int) -> int {
    (x + 5000) / 10000 * 10000
}

/// A coverage percentage never exceeds 100%.
pub proof fn lemma_percent_at_most_100(k: int, t: int)
    requires
        0 <= k <= t,
    ensures
        0 <= percent_value(k, t) <= 100 * MICRO,
{
    if t > 0 {
        assert(100 * k * MICRO / t <= 100 * MICRO) by (nonlinear_arith)
            requires
                0 <= k <= t,
                t > 0,
        ;
        assert(100 * k * MICRO / t >= 0) by (nonlinear_arith)
            requires
                0 <= k,
                t > 0,
        ;
    }
}

/// A percentage in millionths rounded half up to hundredths of a percent.
pub fn round_percent(x: u128) -> (r: u128)
    requires
        x <= 100 * MICRO,
    ensures
        r == rounded_percent(x as int),
{
    (x + 5000) / 10000 * 10000
}

} // verus!
