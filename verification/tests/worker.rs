use edbrute::keypair::{keypair_from_bytes, public_key_to_u64, Keypair};
use edbrute::worker::Worker;

fn valid_public_with_prefix(prefix: [u8; 8]) -> Vec<u8> {
    let mut bytes = vec![0u8; 32];
    bytes[..8].copy_from_slice(&prefix);
    for salt in 0..=65535u32 {
        bytes[8] = (salt & 0xff) as u8;
        bytes[9] = ((salt >> 8) & 0xff) as u8;
        if ed25519_dalek::PublicKey::from_bytes(&bytes).is_ok() {
            return bytes;
        }
    }
    panic!("no valid public key found for prefix");
}

fn pair_with_metric(metric: u64) -> Keypair {
    let public = valid_public_with_prefix(metric.to_be_bytes());
    keypair_from_bytes(public, vec![0u8; 32]).unwrap()
}

#[test]
fn candidate_above_threshold_is_reported_and_raises_it() {
    let mut worker = Worker::new(10);
    let report = worker.consider(pair_with_metric(11));
    let reported = report.expect("an improving candidate was not reported");
    assert_eq!(public_key_to_u64(&reported.public), 11);
    assert_eq!(worker.threshold, 11);
}

#[test]
fn candidate_at_or_below_threshold_is_pruned() {
    let mut worker = Worker::new(10);
    assert!(worker.consider(pair_with_metric(10)).is_none());
    assert!(worker.consider(pair_with_metric(3)).is_none());
    assert_eq!(worker.threshold, 10);
}

#[test]
fn absorbing_updates_keeps_the_maximum() {
    let mut worker = Worker::new(10);
    worker.absorb_updates(&vec![7, 42, 13]);
    assert_eq!(worker.threshold, 42);
    // a batch below the local value leaves it alone
    worker.absorb_updates(&vec![1, 2]);
    assert_eq!(worker.threshold, 42);
    worker.absorb_updates(&Vec::new());
    assert_eq!(worker.threshold, 42);
}

#[test]
fn broadcast_value_bounds_later_comparisons() {
    let mut worker = Worker::new(0);
    worker.absorb_updates(&vec![u64::MAX]);
    // with the threshold at the ceiling every candidate is pruned
    assert!(worker.consider(pair_with_metric(500)).is_none());
    assert_eq!(worker.threshold, u64::MAX);
}

#[test]
fn a_batch_reports_strictly_improving_candidates() {
    let mut worker = Worker::new(0);
    let reports = worker.run_batch(64);
    let mut last: Option<u64> = None;
    for report in &reports {
        let metric = public_key_to_u64(&report.public);
        assert!(metric > 0);
        if let Some(prev) = last {
            assert!(metric > prev);
        }
        last = Some(metric);
    }
    match last {
        Some(metric) => assert_eq!(worker.threshold, metric),
        None => assert_eq!(worker.threshold, 0),
    }
}

#[test]
fn a_batch_never_lowers_the_threshold() {
    let mut worker = Worker::new(u64::MAX);
    let reports = worker.run_batch(16);
    assert!(reports.is_empty());
    assert_eq!(worker.threshold, u64::MAX);
}
