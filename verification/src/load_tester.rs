//! The figures that a load test reports.

use vstd::prelude::*;
use vstd::string::StringExecFns;

use crate::text::{decimal, decimal_text};

verus! {

/// Whether numbers stand in ascending order.
pub open spec fn ascending(s: Seq<u64>) -> bool {
    forall|i: int, j: int| 0 <= i <= j < s.len() ==> #[trigger] s[i] <= #[trigger] s[j]
}

/// `slice::sort_unstable` on numbers puts them in ascending order and keeps each
/// as often as it occurs.
#[verifier::external_body]
fn sort_numbers(v: &mut Vec<u64>)
    ensures
        ascending(final(v)@),
        final(v)@.to_multiset() == old(v)@.to_multiset(),
        final(v)@.len() == old(v)@.len(),
{
    v.sort_unstable()
}

/// The place of the `p`-th percentile among `n` numbers in ascending order.
pub open spec fn percentile_place(n: int, p: int) -> int {
    if n * p / 100 < n {
        n * p / 100
    } else {
        n - 1
    }
}

/// The `p`-th percentile of numbers in ascending order; zero if there are none.
pub open spec fn percentile_of(sorted: Seq<u64>, p: int) -> u64 {
    if sorted.len() == 0 {
        0
    } else {
        sorted[percentile_place(sorted.len() as int, p)]
    }
}

/// The `p`-th percentile of numbers in ascending order; zero if there are none.
pub fn percentile(sorted: &[u64], p: u32) -> (r: u64)
    ensures
        r == percentile_of(sorted@, p as int),
        sorted@.len() == 0 ==> r == 0,
        sorted@.len() > 0 ==> sorted@.contains(r),
{
    let n: usize = sorted.len();
    if n == 0 {
        return 0;
    }
    proof {
        assert(0 <= n as int * p as int <= u64::MAX as int * u32::MAX as int) by (nonlinear_arith)
            requires 0 <= n <= u64::MAX, 0 <= p <= u32::MAX;
    }
    let scaled: u128 = n as u128 * p as u128 / 100;
    if scaled < n as u128 {
        sorted[scaled as usize]
    } else {
        sorted[n - 1]
    }
}

/// The figures of a load test.
#[derive(Debug)]
pub struct LoadReport {
    pub total: usize,
    pub success: usize,
    pub failed: usize,
    pub p50: u64,
    pub p95: u64,
    pub p99: u64,
    pub max: u64,
}

/// The figures for the latencies that were measured.
pub fn load_report(total: usize, failed: usize, latencies: Vec<u64>) -> (report: LoadReport)
    ensures
        report.total == total,
        report.failed == failed,
        report.success == (if failed <= total { total - failed } else { 0 }),
        exists|sorted: Seq<u64>|
            {
                &&& #[trigger] ascending(sorted)
                &&& sorted.to_multiset() == latencies@.to_multiset()
                &&& sorted.len() == latencies@.len()
                &&& report.p50 == percentile_of(sorted, 50)
                &&& report.p95 == percentile_of(sorted, 95)
                &&& report.p99 == percentile_of(sorted, 99)
                &&& report.max == (if sorted.len() == 0 { 0 } else { sorted.last() })
            },
{
    let mut sorted = latencies;
    sort_numbers(&mut sorted);
    let max: u64 = if sorted.len() == 0 { 0 } else { sorted[sorted.len() - 1] };
    LoadReport {
        total,
        success: total.saturating_sub(failed),
        failed,
        p50: percentile(sorted.as_slice(), 50),
        p95: percentile(sorted.as_slice(), 95),
        p99: percentile(sorted.as_slice(), 99),
        max,
    }
}

/// Median and 95th percentile for the progress line.
pub fn progress_percentiles(latencies: Vec<u64>) -> (r: (u64, u64))
    ensures
        exists|sorted: Seq<u64>|
            {
                &&& #[trigger] ascending(sorted)
                &&& sorted.to_multiset() == latencies@.to_multiset()
                &&& sorted.len() == latencies@.len()
                &&& r.0 == percentile_of(sorted, 50)
                &&& r.1 == percentile_of(sorted, 95)
            },
{
    let mut sorted = latencies;
    sort_numbers(&mut sorted);
    (percentile(sorted.as_slice(), 50), percentile(sorted.as_slice(), 95))
}

/// The limit on the duration of a test as it is shown; zero stands for none.
pub fn duration_text(secs: u64) -> (s: String)
    ensures
        s@ == (if secs == 0 { "unlimited"@ } else { decimal_text(secs as nat) + "s"@ }),
{
    if secs == 0 {
        "unlimited".to_string()
    } else {
        decimal(secs).concat("s")
    }
}

/// Where tasks are submitted.
pub fn submit_url(base: &str) -> (url: String)
    ensures
        url@ == base@ + "/tasks"@,
{
    base.to_string().concat("/tasks")
}

/// A percentile is one of the numbers, and a higher percentile is not smaller.
pub proof fn law_percentiles_ascend(sorted: Seq<u64>, p: int, q: int)
    requires
        ascending(sorted),
        sorted.len() > 0,
        0 <= p <= q,
    ensures
        sorted.contains(percentile_of(sorted, p)),
        percentile_of(sorted, p) <= percentile_of(sorted, q) <= sorted.last(),
{
    let n = sorted.len() as int;
    assert(n * p / 100 <= n * q / 100) by (nonlinear_arith)
        requires n > 0, 0 <= p <= q;
    assert(n * p / 100 >= 0) by (nonlinear_arith)
        requires n > 0, 0 <= p;
    let a = percentile_place(n, p);
    let b = percentile_place(n, q);
    assert(0 <= a <= b < n);
    assert(sorted[a] <= sorted[b]);
    assert(sorted[b] <= sorted[n - 1]);
}

/// The percentile of numbers in ascending order is the one before which the given share of
/// them stands, rounded down to whole numbers; the last one if that is all of them.
pub proof fn law_percentile_has_its_share_below(sorted: Seq<u64>, p: int)
    requires
        sorted.len() > 0,
        0 <= p,
    ensures
        exists|k: int|
            {
                &&& 0 <= k < sorted.len()
                &&& percentile_of(sorted, p) == #[trigger] sorted[k]
                &&& 100 * k <= sorted.len() * p
                &&& sorted.len() * p < 100 * (k + 1) || k == sorted.len() - 1
            },
        percentile_of(Seq::<u64>::empty(), p) == 0,
{
    let n = sorted.len() as int;
    assert(n * p >= 0) by (nonlinear_arith)
        requires n > 0, p >= 0;
    let k = percentile_place(n, p);
    assert(percentile_of(sorted, p) == sorted[k]);
}

} // verus!
