use uptimers::scheduler::{BoundedPool, CONCURRENCY_LIMIT};

#[test]
fn pool_never_exceeds_the_limit() {
    let mut pool = BoundedPool::new(12, CONCURRENCY_LIMIT);
    let mut running: Vec<usize> = Vec::new();
    let mut seen: Vec<usize> = Vec::new();
    let mut peak = 0usize;
    while !pool.is_done() {
        // Fill every free slot, then observe how many run at once.
        while let Some(i) = pool.try_start() {
            running.push(i);
            seen.push(i);
        }
        peak = peak.max(running.len());
        assert!(running.len() <= CONCURRENCY_LIMIT);
        // One task completes, freeing a slot.
        running.pop().expect("work must be in flight until the pool drains");
        pool.finish();
    }
    assert_eq!(peak, CONCURRENCY_LIMIT);
    // Every site index was admitted exactly once, in order.
    assert_eq!(seen, (0..12).collect::<Vec<usize>>());
}

#[test]
fn small_batch_never_fills_the_limit() {
    let mut pool = BoundedPool::new(2, CONCURRENCY_LIMIT);
    assert_eq!(pool.try_start(), Some(0));
    assert_eq!(pool.try_start(), Some(1));
    // No work remains to admit.
    assert_eq!(pool.try_start(), None);
    pool.finish();
    pool.finish();
    assert!(pool.is_done());
}
