use rubigo::scheduler::{pool_size, worker_count, MIN_WORKERS};

#[test]
fn single_unit_host_still_gets_two_workers() {
    assert_eq!(worker_count(1), 2);
}

#[test]
fn host_without_units_gets_two_workers() {
    assert_eq!(worker_count(0), 2);
}

#[test]
fn larger_host_gets_one_worker_per_unit() {
    assert_eq!(worker_count(2), 2);
    assert_eq!(worker_count(3), 3);
    assert_eq!(worker_count(64), 64);
    assert_eq!(worker_count(usize::MAX), usize::MAX);
}

#[test]
fn minimum_is_two() {
    assert_eq!(MIN_WORKERS, 2);
}

#[test]
fn pool_of_this_host_has_at_least_two_workers() {
    assert!(pool_size() >= 2);
}

#[test]
fn pool_of_this_host_follows_its_units() {
    let size = pool_size();
    assert_eq!(worker_count(size), size);
}
