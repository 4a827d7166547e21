use laddu_cli::cache::{Cache, CacheItem, CacheItems, CacheProgram};
use laddu_cli::deploy::generate_config_lines;
use laddu_cli::dispatch::{DeployReport, DispatchStep, Dispatcher};

fn store(n: usize, accepted: &[usize]) -> Cache {
    let mut v = Vec::new();
    for i in 0..n {
        v.push(CacheItem {
            name: format!("rec {}", i),
            // 600 bytes: every record exceeds half the byte ceiling, so each
            // gets a batch of its own and the plan has exactly n batches.
            metadata_link: "m".repeat(600),
            on_chain: accepted.contains(&i),
        });
    }
    Cache { program: CacheProgram::new_from_cm("hat".to_string()), items: CacheItems(v) }
}

fn batch_indices_of(d: &Dispatcher, pos: usize) -> Vec<u32> {
    d.plan[pos].iter().map(|p| p.0).collect()
}

/// Drive a run to its end, failing the batches whose positions are listed,
/// observing the cancellation flag after `cancel_after` completions (if any).
fn drive(
    mut d: Dispatcher,
    failing: &[usize],
    cancel_after: Option<usize>,
) -> (Dispatcher, DeployReport) {
    let count = d.start();
    let mut pending: Vec<usize> = (0..count).collect();
    let mut completions = 0usize;
    loop {
        if pending.is_empty() {
            let report = d.finish();
            return (d, report);
        }
        let pos = pending.remove(0);
        let result = if failing.contains(&pos) {
            Err("remote error".to_string())
        } else {
            Ok(batch_indices_of(&d, pos))
        };
        completions += 1;
        let cancel = matches!(cancel_after, Some(c) if completions > c);
        match d.on_completion(pos, result, cancel) {
            DispatchStep::Refill { first, count } => {
                for p in first..first + count {
                    pending.push(p);
                }
            }
            DispatchStep::Wait => {}
            DispatchStep::Done => {
                assert!(pending.is_empty());
                let report = d.finish();
                return (d, report);
            }
        }
    }
}

#[test]
fn full_run_accepts_every_record() {
    let cache = store(10, &[]);
    let plan = generate_config_lines(10, &cache.items).unwrap();
    assert_eq!(plan.len(), 10);
    let d = Dispatcher::new(cache, plan, 4);
    let (d, report) = drive(d, &[], None);
    assert!(matches!(report, DeployReport::Completed));
    for item in &d.cache.items.0 {
        assert!(item.on_chain);
    }
}

#[test]
fn one_failing_batch_does_not_stop_the_rest() {
    // Ten batches, pool of four, the third batch fails: the other nine are
    // still submitted, their records accepted, and the report carries one
    // distinct error.
    let cache = store(10, &[]);
    let plan = generate_config_lines(10, &cache.items).unwrap();
    let d = Dispatcher::new(cache, plan, 4);
    let (d, report) = drive(d, &[2], None);
    match report {
        DeployReport::Failed { distinct_errors, failure_count, remaining } => {
            assert_eq!(distinct_errors, vec!["remote error".to_string()]);
            assert_eq!(failure_count, 1);
            assert_eq!(remaining, 0);
        }
        other => panic!("expected Failed, got {:?}", other),
    }
    for (i, item) in d.cache.items.0.iter().enumerate() {
        if i == 2 {
            assert!(!item.on_chain);
        } else {
            assert!(item.on_chain, "record {} should be accepted", i);
        }
    }
}

#[test]
fn duplicate_errors_are_reported_once() {
    let cache = store(6, &[]);
    let plan = generate_config_lines(6, &cache.items).unwrap();
    let d = Dispatcher::new(cache, plan, 3);
    let (_d, report) = drive(d, &[1, 3, 4], None);
    match report {
        DeployReport::Failed { distinct_errors, failure_count, remaining } => {
            assert_eq!(distinct_errors, vec!["remote error".to_string()]);
            assert_eq!(failure_count, 3);
            assert_eq!(remaining, 0);
        }
        other => panic!("expected Failed, got {:?}", other),
    }
}

#[test]
fn cancellation_lets_in_flight_finish_and_schedules_nothing() {
    // Pool of two over ten batches; the flag is set once two completions are
    // outstanding: exactly those two batches land in the store, nothing else
    // is handed out, and the run reports the remaining eight.
    let cache = store(10, &[]);
    let plan = generate_config_lines(10, &cache.items).unwrap();
    let d = Dispatcher::new(cache, plan, 2);
    let (d, report) = drive(d, &[], Some(0));
    match report {
        DeployReport::Failed { distinct_errors, failure_count, remaining } => {
            assert!(distinct_errors.is_empty());
            assert_eq!(failure_count, 0);
            assert_eq!(remaining, 8);
        }
        other => panic!("expected Failed, got {:?}", other),
    }
    for (i, item) in d.cache.items.0.iter().enumerate() {
        if i < 2 {
            assert!(item.on_chain);
        } else {
            assert!(!item.on_chain, "record {} must not be accepted", i);
        }
    }
}

#[test]
fn fully_accepted_store_is_a_noop_completed_run() {
    // Idempotence: on a store whose records are all accepted the plan is
    // empty and the run is a no-op that reports Completed.
    let cache = store(7, &[0, 1, 2, 3, 4, 5, 6]);
    let before: Vec<(String, String, bool)> = cache
        .items
        .0
        .iter()
        .map(|it| (it.name.clone(), it.metadata_link.clone(), it.on_chain))
        .collect();
    let plan = generate_config_lines(7, &cache.items).unwrap();
    assert!(plan.is_empty());
    let mut d = Dispatcher::new(cache, plan, 4);
    let count = d.start();
    assert_eq!(count, 0);
    let report = d.finish();
    assert!(matches!(report, DeployReport::Completed));
    let after: Vec<(String, String, bool)> = d
        .cache
        .items
        .0
        .iter()
        .map(|it| (it.name.clone(), it.metadata_link.clone(), it.on_chain))
        .collect();
    assert_eq!(before, after);
}

#[test]
fn refill_happens_once_more_than_half_the_pool_drained() {
    let cache = store(10, &[]);
    let plan = generate_config_lines(10, &cache.items).unwrap();
    let mut d = Dispatcher::new(cache, plan, 4);
    let count = d.start();
    assert_eq!(count, 4);
    // First two completions drain the pool to two: no refill yet.
    let i0 = batch_indices_of(&d, 0);
    assert!(matches!(d.on_completion(0, Ok(i0), false), DispatchStep::Wait));
    let i1 = batch_indices_of(&d, 1);
    assert!(matches!(d.on_completion(1, Ok(i1), false), DispatchStep::Wait));
    // The third completion leaves one in flight — more than half the pool has
    // drained, so the dispatcher refills back up to four.
    let i2 = batch_indices_of(&d, 2);
    match d.on_completion(2, Ok(i2), false) {
        DispatchStep::Refill { first, count } => {
            assert_eq!(first, 4);
            assert_eq!(count, 3);
        }
        other => panic!("expected Refill, got {:?}", other),
    }
}

#[test]
fn acceptance_is_never_revoked() {
    let cache = store(4, &[1]);
    let plan = generate_config_lines(4, &cache.items).unwrap();
    let d = Dispatcher::new(cache, plan, 2);
    let (d, report) = drive(d, &[0], None);
    assert!(matches!(report, DeployReport::Failed { .. }));
    // Record 1 was accepted before the run and stays accepted.
    assert!(d.cache.items.0[1].on_chain);
}
