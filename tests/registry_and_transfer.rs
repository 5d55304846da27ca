use storytel::orchestrator::{finish_transfer, request_download, RequestDecision};
use storytel::progress::{LengthMismatch, ProgressRegistry, TransferProgress, TransferTracker};

#[test]
fn registry_record_snapshot_clear() {
    let mut reg = ProgressRegistry::new();
    assert_eq!(reg.snapshot(5), None);
    reg.record(5, 10, Some(100));
    assert_eq!(reg.snapshot(5), Some(TransferProgress { done: 10, total: Some(100) }));
    assert!(reg.is_in_flight(5));
    assert!(!reg.is_in_flight(6));
    reg.record(5, 20, Some(100));
    assert_eq!(reg.snapshot(5), Some(TransferProgress { done: 20, total: Some(100) }));
    reg.clear(5);
    assert_eq!(reg.snapshot(5), None);
}

#[test]
fn second_request_sees_first_in_flight() {
    let mut reg = ProgressRegistry::new();
    assert_eq!(request_download(&mut reg, 9, false), RequestDecision::Start);
    assert_eq!(request_download(&mut reg, 9, false), RequestDecision::AlreadyInFlight);
    assert_eq!(request_download(&mut reg, 10, false), RequestDecision::Start);
}

#[test]
fn mirrored_item_creates_no_entry() {
    let mut reg = ProgressRegistry::new();
    assert_eq!(request_download(&mut reg, 3, true), RequestDecision::AlreadyPresent);
    assert_eq!(reg.snapshot(3), None);
}

#[test]
fn finished_transfer_leaves_no_entry() {
    let mut reg = ProgressRegistry::new();
    assert_eq!(request_download(&mut reg, 4, false), RequestDecision::Start);
    assert_eq!(reg.snapshot(4), Some(TransferProgress { done: 0, total: None }));
    reg.record(4, 500, Some(1000));
    finish_transfer(&mut reg, 4);
    assert_eq!(reg.snapshot(4), None);
    assert_eq!(request_download(&mut reg, 4, false), RequestDecision::Start);
}

#[test]
fn chunked_transfer_reports_each_chunk() {
    let total: u64 = 1_000_000;
    let chunk: u64 = 8_192;
    let mut tracker = TransferTracker::new(Some(total));
    let mut reports: Vec<u64> = Vec::new();
    let mut left = total;
    while left > 0 {
        let n = if left < chunk { left } else { chunk };
        reports.push(tracker.on_chunk(n));
        left -= n;
    }
    assert_eq!(reports.len() as u64, (total + chunk - 1) / chunk);
    assert_eq!(reports.len(), 123);
    assert_eq!(*reports.last().unwrap(), 1_000_000);
    assert!(reports.windows(2).all(|w| w[0] <= w[1]));
    assert!(reports[0] > 0);
    assert!(tracker.is_complete());
    assert_eq!(tracker.finish(), Ok(1_000_000));
}

#[test]
fn short_body_is_rejected() {
    let mut tracker = TransferTracker::new(Some(100));
    tracker.on_chunk(60);
    assert_eq!(tracker.finish(), Err(LengthMismatch { done: 60, declared: 100 }));
    tracker.on_chunk(50);
    assert_eq!(tracker.finish(), Err(LengthMismatch { done: 110, declared: 100 }));
}

#[test]
fn undeclared_total_is_accepted() {
    let mut tracker = TransferTracker::new(None);
    assert_eq!(tracker.finish(), Ok(0));
    tracker.on_chunk(5);
    assert_eq!(tracker.finish(), Ok(5));
}

#[test]
fn unknown_total_never_complete() {
    let mut tracker = TransferTracker::new(None);
    assert_eq!(tracker.on_chunk(3), 3);
    assert_eq!(tracker.on_chunk(0), 3);
    assert_eq!(tracker.on_chunk(4), 7);
    assert!(!tracker.is_complete());
}
