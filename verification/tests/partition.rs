use fetch_analysis::grid::Grid;
use fetch_analysis::partition::{progress_percent, rows_for_worker, worker_count};

#[test]
fn worker_pool_has_at_least_one_lane() {
    let n = worker_count();
    assert!(n >= 1);
    assert!(n <= 1_000_000);
}

#[test]
fn modulo_partition_covers_every_row_once() {
    let rows = 10usize;
    let p = 3usize;
    let mut seen = vec![0usize; rows];
    assert_eq!(rows_for_worker(rows, p, 0), vec![0, 3, 6, 9]);
    assert_eq!(rows_for_worker(rows, p, 1), vec![1, 4, 7]);
    assert_eq!(rows_for_worker(rows, p, 2), vec![2, 5, 8]);
    for tid in 0..p {
        for r in rows_for_worker(rows, p, tid) {
            seen[r] += 1;
        }
    }
    assert!(seen.iter().all(|&n| n == 1));
}

#[test]
fn one_worker_owns_everything() {
    assert_eq!(rows_for_worker(4, 1, 0), vec![0, 1, 2, 3]);
}

#[test]
fn more_workers_than_rows_leaves_some_idle() {
    assert_eq!(rows_for_worker(2, 5, 0), vec![0]);
    assert_eq!(rows_for_worker(2, 5, 1), vec![1]);
    assert_eq!(rows_for_worker(2, 5, 4), Vec::<usize>::new());
}

#[test]
fn progress_is_exact_and_never_decreases() {
    assert_eq!(progress_percent(0, 11), 0);
    assert_eq!(progress_percent(5, 11), 50);
    assert_eq!(progress_percent(10, 11), 100);
    assert_eq!(progress_percent(0, 1), 100);
    let mut prev = 0u64;
    for i in 0..11usize {
        let now = progress_percent(i, 11);
        assert!(now >= prev);
        prev = now;
    }
}

#[test]
fn rows_collect_in_any_arrival_order() {
    // the collector writes each row message at its own index, whatever the
    // order of arrival
    let mut out = Grid::new_filled(3, 2, -9_999_000, -9_999_000);
    out.set_row(2, vec![20, 21]);
    out.set_row(0, vec![0, 1]);
    out.set_row(1, vec![10, 11]);
    assert_eq!(out.get(0, 0), 0);
    assert_eq!(out.get(0, 1), 1);
    assert_eq!(out.get(1, 0), 10);
    assert_eq!(out.get(1, 1), 11);
    assert_eq!(out.get(2, 0), 20);
    assert_eq!(out.get(2, 1), 21);
}
