use lumina_core::social::dead_letter::{
    records_within_budget, DeadLetterInput, DeadLetterQueue, DeadLetterStatus, RetryPolicy,
};

fn input() -> DeadLetterInput {
    DeadLetterInput {
        message_id: Some(uuid::Uuid::new_v4().as_u128()),
        sender_id: Some(uuid::Uuid::new_v4().as_u128()),
        recipient_id: Some(uuid::Uuid::new_v4().as_u128()),
        failure_stage: "persist_message".to_string(),
        error_class: "database_timeout".to_string(),
        error_message: "insert timed out".to_string(),
        payload_digest: "sha256:abc123".to_string(),
    }
}

#[test]
fn records_failure_as_pending() {
    let mut queue = DeadLetterQueue::new(10, RetryPolicy::default());
    let entry = queue.record_failure(input());

    assert_eq!(queue.len(), 1);
    assert_eq!(entry.status, DeadLetterStatus::Pending);
    assert_eq!(queue.pending().len(), 1);
}

#[test]
fn evicts_oldest_entry_when_capacity_is_reached() {
    let mut queue = DeadLetterQueue::new(1, RetryPolicy::default());
    let first = queue.record_failure(input());
    let second = queue.record_failure(input());

    assert_eq!(queue.len(), 1);
    assert_ne!(first.id, second.id);
    assert_eq!(queue.pending()[0].id, second.id);
}

#[test]
fn retry_failure_applies_exponential_backoff() {
    let mut queue = DeadLetterQueue::new(
        10,
        RetryPolicy { base_delay_ms: 1_000, max_delay_ms: 10_000, max_retries: 5 },
    );
    let entry = queue.record_failure(input());
    let retried = queue.mark_retry_failed(entry.id, "still failing".to_string()).unwrap();

    assert_eq!(retried.retry_count, 1);
    assert_eq!(retried.status, DeadLetterStatus::Retrying);
    assert!(retried.next_retry_at > retried.last_failed_at);
}

#[test]
fn record_failure_stays_inside_hot_path_budget() {
    let mut queue = DeadLetterQueue::new(100, RetryPolicy::default());
    assert!(records_within_budget(&mut queue, input(), 100));
}

#[test]
fn retry_delays_double_up_to_the_cap() {
    let p = RetryPolicy { base_delay_ms: 1_000, max_delay_ms: 10_000, max_retries: 5 };
    assert_eq!(p.next_delay(0), 1_000);
    assert_eq!(p.next_delay(1), 2_000);
    assert_eq!(p.next_delay(3), 8_000);
    assert_eq!(p.next_delay(4), 10_000);
    let huge = RetryPolicy { base_delay_ms: u64::MAX / 2, max_delay_ms: u64::MAX, max_retries: 5 };
    assert_eq!(huge.next_delay(40), u64::MAX);
}

#[test]
fn envelopes_at_given_times() {
    let mut queue = DeadLetterQueue::new(2, RetryPolicy::default());
    let m = queue.record_failure_at(input(), 7, 1_000);
    assert_eq!(m.id, 7);
    assert_eq!(m.first_failed_at, 1_000);
    assert_eq!(m.next_retry_at, 31_000);
    let r = queue.mark_retry_failed_at(7, "again".to_string(), 2_000).unwrap();
    assert_eq!(r.next_retry_at, 62_000);
    assert_eq!(r.error_message, "again");
    assert_eq!(queue.pending().len(), 0);
    for n in 2..=5u64 {
        queue.mark_retry_failed_at(7, "again".to_string(), 2_000 + n).unwrap();
    }
    assert_eq!(queue.pending().len(), 1);
    assert!(queue.mark_resolved(7));
    assert!(!queue.mark_resolved(8));
    assert_eq!(queue.pending().len(), 0);
    assert!(queue.mark_retry_failed_at(8, "x".to_string(), 0).is_none());
}
