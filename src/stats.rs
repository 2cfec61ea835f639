use vstd::prelude::*;

use crate::error::Error;
use crate::metrics::Metrics;

verus! {

/// Column `k` of a row: 0 plain, 1 quantized, 2 CRAP, 3 stink, else the
/// coverage.
pub open spec fn column(m: Metrics, k: int) -> u128 {
    if k == 0 {
        m.sifis_plain
    } else if k == 1 {
        m.sifis_quantized
    } else if k == 2 {
        m.crap
    } else if k == 3 {
        m.skunk
    } else {
        m.coverage
    }
}

/// Sum of column `k` over all rows.
pub open spec fn column_sum(s: Seq<Metrics>, k: int) -> nat
    decreases s.len(),
{
    if s.len() == 0 {
        0
    } else {
        column_sum(s.drop_last(), k) + column(s.last(), k) as nat
    }
}

/// Arithmetic mean of column `k`, rounded down; 0 for no rows.
pub open spec fn column_avg(s: Seq<Metrics>, k: int) -> int {
    if s.len() == 0 {
        0
    } else {
        column_sum(s, k) as int / s.len() as int
    }
}

/// Largest value of column `k`; 0 for no rows.
pub open spec fn column_max(s: Seq<Metrics>, k: int) -> u128
    decreases s.len(),
{
    if s.len() == 0 {
        0
    } else {
        let m = column_max(s.drop_last(), k);
        let x = column(s.last(), k);
        if x > m {
            x
        } else {
            m
        }
    }
}

/// Smallest value of column `k`; for no rows, the value of `Metrics::min`.
pub open spec fn column_min(s: Seq<Metrics>, k: int) -> u128
    decreases s.len(),
{
    if s.len() == 0 {
        if k == 4 {
            100_000_000u128
        } else {
            u128::MAX
        }
    } else {
        let m = column_min(s.drop_last(), k);
        let x = column(s.last(), k);
        if x < m {
            x
        } else {
            m
        }
    }
}

/// A row whose five columns are given by `f`, not complex.
pub open spec fn row_of(f: spec_fn(int) -> int) -> Metrics {
    Metrics {
        sifis_plain: f(0) as u128,
        sifis_quantized: f(1) as u128,
        crap: f(2) as u128,
        skunk: f(3) as u128,
        is_complex: false,
        coverage: f(4) as u128,
    }
}

/// The AVG row.
pub open spec fn avg_row(s: Seq<Metrics>) -> Metrics {
    row_of(|k: int| column_avg(s, k))
}

/// The MAX row.
pub open spec fn max_row(s: Seq<Metrics>) -> Metrics {
    row_of(|k: int| column_max(s, k) as int)
}

/// The MIN row.
pub open spec fn min_row(s: Seq<Metrics>) -> Metrics {
    row_of(|k: int| column_min(s, k) as int)
}

/// Whether every column sums to a value that fits a `u128`.
pub open spec fn sums_fit(s: Seq<Metrics>) -> bool {
    forall|k: int| 0 <= k < 5 ==> #[trigger] column_sum(s, k) <= u128::MAX
}

proof fn lemma_column_sum_prefix(s: Seq<Metrics>, k: int, i: int)
    requires
        0 <= i <= s.len(),
    ensures
        column_sum(s.subrange(0, i), k) <= column_sum(s, k),
    decreases s.len() - i,
{
    if i == s.len() {
        assert(s.subrange(0, i) =~= s);
    } else {
        assert(s.subrange(0, i + 1).drop_last() =~= s.subrange(0, i));
        lemma_column_sum_prefix(s, k, i + 1);
    }
}

fn get_column(m: &Metrics, k: usize) -> (r: u128)
    ensures
        r == column(*m, k as int),
{
    if k == 0 {
        m.sifis_plain
    } else if k == 1 {
        m.sifis_quantized
    } else if k == 2 {
        m.crap
    } else if k == 3 {
        m.skunk
    } else {
        m.coverage
    }
}

/// Mean, maximum and minimum of column `k`; fails where its sum does not
/// fit.
fn column_stats(ms: &Vec<Metrics>, k: usize) -> (r: Result<(u128, u128, u128), Error>)
    ensures
        r is Ok <==> column_sum(ms@, k as int) <= u128::MAX,
        r is Err ==> r == Err::<(u128, u128, u128), Error>(Error::OverflowError()),
        r matches Ok(v) ==> v.0 == column_avg(ms@, k as int) && v.1 == column_max(ms@, k as int)
            && v.2 == column_min(ms@, k as int),
{
    let mut sum: u128 = 0;
    let mut max: u128 = 0;
    let mut min: u128 = if k == 4 {
        100_000_000
    } else {
        u128::MAX
    };
    let mut i: usize = 0;
    while i < ms.len()
        invariant
            i <= ms@.len(),
            sum == column_sum(ms@.subrange(0, i as int), k as int),
            max == column_max(ms@.subrange(0, i as int), k as int),
            min == column_min(ms@.subrange(0, i as int), k as int),
        decreases ms@.len() - i,
    {
        let ghost pre = ms@.subrange(0, i as int + 1);
        assert(pre.drop_last() =~= ms@.subrange(0, i as int));
        let x = get_column(&ms[i], k);
        match sum.checked_add(x) {
            Some(s) => sum = s,
            None => {
                proof {
                    lemma_column_sum_prefix(ms@, k as int, i as int + 1);
                }
                return Err(Error::OverflowError());
            },
        }
        if x > max {
            max = x;
        }
        if x < min {
            min = x;
        }
        i = i + 1;
    }
    assert(ms@.subrange(0, ms@.len() as int) =~= ms@);
    let avg = if ms.len() == 0 {
        0
    } else {
        sum / ms.len() as u128
    };
    Ok((avg, max, min))
}

/// The AVG, MAX and MIN rows over the per-entity rows: plain column-wise
/// mean, maximum and minimum. Fails where a column's sum does not fit.
pub fn get_cumulative_values(ms: &Vec<Metrics>) -> (r: Result<(Metrics, Metrics, Metrics), Error>)
    ensures
        r is Ok <==> sums_fit(ms@),
        r is Err ==> r == Err::<(Metrics, Metrics, Metrics), Error>(Error::OverflowError()),
        r matches Ok(v) ==> v.0 == avg_row(ms@) && v.1 == max_row(ms@) && v.2 == min_row(ms@),
{
    let mut avg = [0u128; 5];
    let mut max = [0u128; 5];
    let mut min = [0u128; 5];
    let mut k: usize = 0;
    while k < 5
        invariant
            0 <= k <= 5,
            avg@.len() == 5 && max@.len() == 5 && min@.len() == 5,
            forall|j: int| 0 <= j < k ==> #[trigger] column_sum(ms@, j) <= u128::MAX,
            forall|j: int|
                0 <= j < k ==> avg@[j] == column_avg(ms@, j) && max@[j] == column_max(ms@, j)
                    && min@[j] == column_min(ms@, j),
        decreases 5 - k,
    {
        let (a, x, n) = column_stats(ms, k)?;
        avg[k] = a;
        max[k] = x;
        min[k] = n;
        k = k + 1;
    }
    let avg_m = Metrics {
        sifis_plain: avg[0],
        sifis_quantized: avg[1],
        crap: avg[2],
        skunk: avg[3],
        is_complex: false,
        coverage: avg[4],
    };
    let max_m = Metrics {
        sifis_plain: max[0],
        sifis_quantized: max[1],
        crap: max[2],
        skunk: max[3],
        is_complex: false,
        coverage: max[4],
    };
    let min_m = Metrics {
        sifis_plain: min[0],
        sifis_quantized: min[1],
        crap: min[2],
        skunk: min[3],
        is_complex: false,
        coverage: min[4],
    };
    Ok((avg_m, max_m, min_m))
}

} // verus!
