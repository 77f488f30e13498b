use reddit_core::{fullname_id, Comments, StreamEntry, StreamStep, BATCH_SIZE};

fn batch(ids: &[u64]) -> Vec<StreamEntry<String>> {
    ids.iter()
        .map(|&id| StreamEntry { id, name: format!("t1_{}", id), item: format!("comment {}", id) })
        .collect()
}

fn drain(s: &mut Comments<String>) -> Vec<u64> {
    let mut out = Vec::new();
    while let Some(e) = s.pop() {
        out.push(e.id);
    }
    out
}

#[test]
fn three_batches_come_out_in_order() {
    let mut s: Comments<String> = Comments::new("rust");
    assert_eq!(s.step(), StreamStep::Fetch { before: None, limit: BATCH_SIZE });
    s.accept_batch(batch(&[5, 4, 3, 2, 1]));
    assert_eq!(s.last_seen().as_deref(), Some("t1_5"));
    s.accept_batch(batch(&[]));
    assert_eq!(s.last_seen().as_deref(), Some("t1_5"));
    s.accept_batch(batch(&[8, 7, 6]));
    assert_eq!(s.buffered(), 8);
    assert_eq!(s.last_seen().as_deref(), Some("t1_8"));
    assert_eq!(drain(&mut s), vec![1, 2, 3, 4, 5, 6, 7, 8]);
    assert_eq!(s.step(), StreamStep::Fetch { before: Some("t1_8".to_string()), limit: 500 });
}

#[test]
fn yields_across_batches_without_repeats() {
    let mut s: Comments<String> = Comments::new("all");
    let mut seen = Vec::new();
    for b in [vec![3u64, 1], vec![10, 9, 4], vec![], vec![11]] {
        assert!(s.is_fresh_batch(&batch(&b)));
        s.accept_batch(batch(&b));
        if let Some(e) = s.pop() {
            seen.push(e.id);
        }
    }
    seen.extend(drain(&mut s));
    assert_eq!(seen, vec![1, 3, 4, 9, 10, 11]);
    assert_eq!(s.sub(), "all");
}

#[test]
fn every_successful_batch_is_queued() {
    let mut s: Comments<String> = Comments::new("rust");
    s.accept_batch(batch(&[20, 10]));
    assert!(!s.is_fresh_batch(&batch(&[25, 20])));
    s.accept_batch(batch(&[25, 20]));
    assert_eq!(s.buffered(), 4);
    assert_eq!(s.last_seen().as_deref(), Some("t1_25"));
    assert!(!s.is_fresh_batch(&batch(&[21, 22])));
    s.accept_batch(batch(&[21, 22]));
    assert_eq!(s.last_seen().as_deref(), Some("t1_21"));
    assert_eq!(drain(&mut s), vec![10, 20, 20, 25, 22, 21]);
    assert!(s.is_fresh_batch(&batch(&[30, 22])));
    assert!(!s.is_fresh_batch(&batch(&[30, 21])));
    assert!(!s.is_fresh_batch(&batch(&[30, 30])));
}

#[test]
fn step_yields_while_buffered() {
    let mut s: Comments<String> = Comments::new("rust");
    s.accept_batch(batch(&[2]));
    assert_eq!(s.step(), StreamStep::Yield);
    let e = s.pop().unwrap();
    assert_eq!((e.id, e.name.as_str(), e.item.as_str()), (2, "t1_2", "comment 2"));
    assert!(s.pop().is_none());
}

#[test]
fn backoff_grows_and_is_capped() {
    let mut s: Comments<String> = Comments::new("rust");
    assert_eq!(s.record_failure_with(1234), 234);
    assert_eq!(s.fails(), 1);
    assert_eq!(s.record_failure_with(5), 1005);
    for _ in 0..20 {
        s.record_failure_with(0);
    }
    assert_eq!(s.fails(), 10);
    assert_eq!(s.record_failure_with(999), 10_999);
    let d = s.record_failure();
    assert!((10_000..11_000).contains(&d));
    s.accept_batch(batch(&[]));
    assert_eq!(s.fails(), 0);
}

#[test]
fn fullname_ids_are_base36() {
    assert_eq!(fullname_id("t1_a"), Some(10));
    assert_eq!(fullname_id("t1_10"), Some(36));
    assert_eq!(fullname_id("t3_zz"), Some(35 * 36 + 35));
    assert_eq!(fullname_id("t1_"), None);
    assert_eq!(fullname_id("x1_abc"), None);
    assert_eq!(fullname_id("t1_ab-c"), None);
    assert_eq!(fullname_id("t1_3w5e11264sgsf"), Some(u64::MAX));
    assert_eq!(fullname_id("t1_3w5e11264sgsg"), None);
}
