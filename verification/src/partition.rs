//! Work partitioning and result collection: rows are split across a fixed
//! set of workers by row index modulo worker count, and the collector's
//! progress percentage is non-decreasing in the number of rows received.

use vstd::prelude::*;
use crate::grid::MAX_DIM;

verus! {

/// Largest accepted worker count.
pub const WORKERS_MAX: usize = 1_000_000;

/// The worker a row is assigned to: the row index modulo the worker count.
pub open spec fn worker_of(r: int, p: int) -> int {
    r % p
}

/// Worker `t` owns row `r` under a pool of `p` workers.
pub open spec fn assigned(r: int, p: int, t: int) -> bool {
    worker_of(r, p) == t
}

/// The modulo partition covers every row exactly once: each row has a worker
/// within the pool, and no row has two.
pub proof fn lemma_partition_complete(rows: int, p: int)
    requires
        1 <= p,
    ensures
        forall|r: int| 0 <= r < rows ==> 0 <= #[trigger] worker_of(r, p) < p,
        forall|r: int, t1: int, t2: int|
            0 <= r < rows && assigned(r, p, t1) && assigned(r, p, t2) ==> t1 == t2,
{
    assert forall|r: int| 0 <= r < rows implies 0 <= #[trigger] worker_of(r, p) < p by {
        vstd::arithmetic::div_mod::lemma_mod_bound(r, p);
    }
}

/// Relies on num_cpus::get: the number of available hardware lanes of the
/// current system, documented to always be at least one.
#[verifier::external_body]
fn available_lanes() -> (n: usize)
    ensures
        1 <= n,
{
    num_cpus::get()
}

/// The size of the worker pool: one worker per available hardware lane,
/// capped so the partition arithmetic stays in range.
pub fn worker_count() -> (n: usize)
    ensures
        1 <= n <= WORKERS_MAX,
{
    let n = available_lanes();
    if n > WORKERS_MAX {
        WORKERS_MAX
    } else {
        n
    }
}

/// The rows worker `tid` owns, in increasing order: exactly those row
/// indices below `rows` that equal `tid` modulo the worker count.
pub fn rows_for_worker(rows: usize, p: usize, tid: usize) -> (v: Vec<usize>)
    requires
        1 <= p <= WORKERS_MAX,
        tid < p,
        rows <= MAX_DIM,
    ensures
        forall|i: int|
            0 <= i < v@.len() ==> #[trigger] v@[i] == tid + i * p && v@[i] < rows,
        forall|r: int|
            0 <= r < rows && assigned(r, p as int, tid as int)
                ==> exists|i: int| 0 <= i < v@.len() && v@[i] == r,
{
    let mut v: Vec<usize> = Vec::new();
    let mut r: usize = tid;
    proof {
        assert(0 * (p as int) == 0) by (nonlinear_arith);
    }
    while r < rows
        invariant
            1 <= p <= WORKERS_MAX,
            tid < p,
            rows <= MAX_DIM,
            r == tid + v@.len() * p,
            forall|i: int|
                0 <= i < v@.len() ==> #[trigger] v@[i] == tid + i * p && v@[i] < rows,
        decreases rows + p - r,
    {
        let ghost n = v@.len() as int;
        v.push(r);
        proof {
            assert((n + 1) * p == n * p + p) by (nonlinear_arith);
        }
        r = r + p;
    }
    proof {
        let len = v@.len() as int;
        assert(rows <= tid + len * p);
        assert forall|r0: int|
            0 <= r0 < rows && assigned(r0, p as int, tid as int)
                implies exists|i: int| 0 <= i < v@.len() && v@[i] == r0 by {
            vstd::arithmetic::div_mod::lemma_fundamental_div_mod(r0, p as int);
            let q = r0 / (p as int);
            assert(r0 == (p as int) * q + tid);
            assert(q >= 0) by (nonlinear_arith)
                requires
                    r0 == (p as int) * q + tid,
                    0 <= r0,
                    0 <= tid < p,
            ;
            assert(q < len) by (nonlinear_arith)
                requires
                    r0 == (p as int) * q + tid,
                    r0 < tid + len * (p as int),
                    1 <= p,
            ;
            assert(v@[q] == tid + q * p);
            assert(tid + q * p == r0) by (nonlinear_arith)
                requires
                    r0 == (p as int) * q + tid,
            ;
        }
    }
    v
}

/// The collector's progress percentage after receiving the row message with
/// ordinal `index` (zero-based), out of `rows` in all.
pub open spec fn progress_spec(index: int, rows: int) -> int {
    if rows <= 1 {
        100
    } else {
        100 * index / (rows - 1)
    }
}

/// Compute the progress percentage; it never exceeds one hundred.
pub fn progress_percent(index: usize, rows: usize) -> (pct: u64)
    requires
        1 <= rows <= MAX_DIM,
        index < rows,
    ensures
        pct == progress_spec(index as int, rows as int),
        pct <= 100,
{
    if rows == 1 {
        100
    } else {
        proof {
            vstd::arithmetic::div_mod::lemma_div_is_ordered(
                100 * (index as int),
                100 * (rows as int - 1),
                rows as int - 1,
            );
            vstd::arithmetic::div_mod::lemma_div_by_multiple(100, rows as int - 1);
        }
        100 * (index as u64) / (rows as u64 - 1)
    }
}

/// More rows received never means less progress reported.
pub proof fn lemma_progress_monotone(i1: int, i2: int, rows: int)
    requires
        0 <= i1 <= i2,
        1 <= rows,
    ensures
        progress_spec(i1, rows) <= progress_spec(i2, rows),
{
    if rows > 1 {
        vstd::arithmetic::div_mod::lemma_div_is_ordered(100 * i1, 100 * i2, rows - 1);
    }
}

} // verus!
