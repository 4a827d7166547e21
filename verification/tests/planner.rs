use laddu_cli::cache::{CacheItem, CacheItems};
use laddu_cli::deploy::generate_config_lines;
use laddu_cli::errors::DeployError;

fn item(name: &str, uri: &str, on_chain: bool) -> CacheItem {
    CacheItem { name: name.to_string(), metadata_link: uri.to_string(), on_chain }
}

fn small_items(n: usize, accepted: &[usize]) -> CacheItems {
    let mut v = Vec::new();
    for i in 0..n {
        v.push(item(&format!("item {}", i), "https://x.y/m.json", accepted.contains(&i)));
    }
    CacheItems(v)
}

#[test]
fn accepted_record_forces_split() {
    // Records 0..5 far under the ceilings; record 2 already accepted: the plan
    // must be [0, 1] and [3, 4], never including record 2.
    let items = small_items(5, &[2]);
    let plan = generate_config_lines(5, &items).unwrap();
    assert_eq!(plan.len(), 2);
    let first: Vec<u32> = plan[0].iter().map(|p| p.0).collect();
    let second: Vec<u32> = plan[1].iter().map(|p| p.0).collect();
    assert_eq!(first, vec![0, 1]);
    assert_eq!(second, vec![3, 4]);
}

#[test]
fn byte_ceiling_splits_after_sixteen_sixty_byte_lines() {
    // 20 unaccepted records of exactly 60 serialized bytes each (8 bytes of
    // length prefixes + 26 + 26): sixteen fit in 960 bytes, the seventeenth
    // would reach 1020 > 1000, so the boundary falls after record 15.
    let name = "abcdefghijklmnopqrstuvwxyz"; // 26 bytes
    let uri = "ABCDEFGHIJKLMNOPQRSTUVWXYZ"; // 26 bytes
    let mut v = Vec::new();
    for _ in 0..20 {
        v.push(item(name, uri, false));
    }
    let items = CacheItems(v);
    let plan = generate_config_lines(20, &items).unwrap();
    assert_eq!(plan.len(), 2);
    assert_eq!(plan[0].len(), 16);
    assert_eq!(plan[1].len(), 4);
    let first: Vec<u32> = plan[0].iter().map(|p| p.0).collect();
    assert_eq!(first, (0..16).collect::<Vec<u32>>());
    let second: Vec<u32> = plan[1].iter().map(|p| p.0).collect();
    assert_eq!(second, (16..20).collect::<Vec<u32>>());
}

#[test]
fn count_ceiling_splits_at_seventeen_lines() {
    // Tiny records: the byte ceiling is never reached, so batches close at
    // seventeen lines each.
    let items = small_items(40, &[]);
    let plan = generate_config_lines(40, &items).unwrap();
    assert_eq!(plan.len(), 3);
    assert_eq!(plan[0].len(), 17);
    assert_eq!(plan[1].len(), 17);
    assert_eq!(plan[2].len(), 6);
}

#[test]
fn plan_reproduces_unaccepted_indices_in_order() {
    let items = small_items(30, &[0, 7, 8, 21, 29]);
    let plan = generate_config_lines(30, &items).unwrap();
    let mut flattened: Vec<u32> = Vec::new();
    for batch in &plan {
        for (i, line) in batch {
            flattened.push(*i);
            assert!(!items.0[*i as usize].on_chain, "accepted record {} planned", i);
            assert_eq!(line.name, items.0[*i as usize].name);
            assert_eq!(line.uri, items.0[*i as usize].metadata_link);
        }
    }
    let expected: Vec<u32> =
        (0..30u32).filter(|i| ![0, 7, 8, 21, 29].contains(&(*i as usize))).collect();
    assert_eq!(flattened, expected);
}

#[test]
fn ceilings_hold_for_every_batch() {
    let items = small_items(100, &[3, 4, 50, 51, 52, 99]);
    let plan = generate_config_lines(100, &items).unwrap();
    for batch in &plan {
        assert!(!batch.is_empty());
        assert!(batch.len() <= 17);
        let bytes: usize = batch.iter().map(|p| 8 + p.1.name.len() + p.1.uri.len()).sum();
        assert!(bytes <= 1000);
    }
}

#[test]
fn fully_accepted_store_yields_empty_plan() {
    let items = small_items(12, &(0..12).collect::<Vec<usize>>());
    let plan = generate_config_lines(12, &items).unwrap();
    assert!(plan.is_empty());
}

#[test]
fn rerun_after_acceptance_plans_subset() {
    // Monotonic shrinkage: accepting more records between runs can only
    // remove work, never add it.
    let before = small_items(25, &[5]);
    let after = small_items(25, &[5, 6, 7, 13]);
    let plan_before = generate_config_lines(25, &before).unwrap();
    let plan_after = generate_config_lines(25, &after).unwrap();
    let work_before: Vec<u32> =
        plan_before.iter().flat_map(|b| b.iter().map(|p| p.0)).collect();
    let work_after: Vec<u32> = plan_after.iter().flat_map(|b| b.iter().map(|p| p.0)).collect();
    for i in &work_after {
        assert!(work_before.contains(i));
    }
    for newly in [6u32, 7, 13] {
        assert!(work_before.contains(&newly));
        assert!(!work_after.contains(&newly));
    }
}

#[test]
fn missing_record_is_reported() {
    let items = small_items(3, &[]);
    match generate_config_lines(5, &items) {
        Err(DeployError::MissingCacheItem(i)) => assert_eq!(i, 3),
        other => panic!("expected MissingCacheItem, got {:?}", other),
    }
}

#[test]
fn oversized_record_gets_its_own_batch() {
    // A record whose own serialized size exceeds the byte ceiling still gets
    // a (singleton) batch; its neighbours batch normally.
    let big_uri: String = "u".repeat(1200);
    let items = CacheItems(vec![
        item("a", "uri", false),
        item("big", &big_uri, false),
        item("b", "uri", false),
    ]);
    let plan = generate_config_lines(3, &items).unwrap();
    assert_eq!(plan.len(), 3);
    assert_eq!(plan[0].len(), 1);
    assert_eq!(plan[0][0].0, 0);
    assert_eq!(plan[1].len(), 1);
    assert_eq!(plan[1][0].0, 1);
    assert_eq!(plan[2].len(), 1);
    assert_eq!(plan[2][0].0, 2);
}
