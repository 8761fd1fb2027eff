use lumina_core::congestion::backpressure_sender::BackpressureSender;
use lumina_core::congestion::probe_scheduler::ProbeScheduler;
use lumina_core::congestion::types::{CongestionEvent, WindowSize, MAX_ZERO_WINDOW_COUNT};
use lumina_core::congestion::window_controller::WindowController;

#[test]
fn test_ack_suppression_after_three_zero_window() {
    let mut sender = BackpressureSender::new();
    let tenant = "alice".to_string();

    for i in 1..=3 {
        let suppressed = sender.should_suppress_ack(&tenant, WindowSize::suspended());
        assert!(!suppressed, "ACK {i} should NOT be suppressed");
    }

    for i in 4..=10 {
        let suppressed = sender.should_suppress_ack(&tenant, WindowSize::suspended());
        assert!(suppressed, "ACK {i} SHOULD be suppressed");
    }
}

#[test]
fn test_non_zero_window_resets_suppression() {
    let mut sender = BackpressureSender::new();
    let tenant = "bob".to_string();

    sender.should_suppress_ack(&tenant, WindowSize::suspended());
    sender.should_suppress_ack(&tenant, WindowSize::suspended());
    sender.should_suppress_ack(&tenant, WindowSize::suspended());
    assert!(sender.should_suppress_ack(&tenant, WindowSize::suspended()));

    let suppressed = sender.should_suppress_ack(&tenant, WindowSize::new(4096));
    assert!(!suppressed, "Non-zero ACK should not be suppressed");

    let suppressed = sender.should_suppress_ack(&tenant, WindowSize::suspended());
    assert!(!suppressed, "After reset, first zero-window ACK should be allowed");
}

#[test]
fn test_ack_suppression_metrics() {
    let mut sender = BackpressureSender::new();
    let tenant = "carol".to_string();

    for _ in 0..3 {
        sender.should_suppress_ack(&tenant, WindowSize::suspended());
    }
    sender.should_suppress_ack(&tenant, WindowSize::suspended());
    sender.should_suppress_ack(&tenant, WindowSize::suspended());

    let metrics = sender.metrics();
    assert_eq!(metrics.total_zero_window_ack_suppressed, 2);
}

#[test]
fn ack_suppression_is_per_tenant_and_reset_forgets_short_runs() {
    let mut sender = BackpressureSender::new();
    let a = "a".to_string();
    let b = "b".to_string();
    for _ in 0..2 {
        sender.should_suppress_ack(&a, WindowSize::suspended());
    }
    assert!(!sender.should_suppress_ack(&b, WindowSize::suspended()));
    sender.reset(&a);
    // the run of two was forgotten: three more pass before suppression
    for _ in 0..3 {
        assert!(!sender.should_suppress_ack(&a, WindowSize::suspended()));
    }
    assert!(sender.should_suppress_ack(&a, WindowSize::suspended()));
    // a suppressed tenant stays suppressed across a reset
    sender.reset(&a);
    assert!(sender.should_suppress_ack(&a, WindowSize::suspended()));
    assert_eq!(sender.metrics().total_zero_window_ack_suppressed, 2);
}

#[test]
fn test_integration_forced_recovery_within_six_probes() {
    let mut controller = WindowController::new();
    let mut scheduler = ProbeScheduler::new();
    let mut sender = BackpressureSender::new();
    let tenant = "integration-tenant".to_string();

    let mut forced_open_detected = false;

    for i in 1..=10 {
        let event = controller.process_heartbeat(&tenant, WindowSize::suspended());

        match event {
            Some(CongestionEvent::WindowForcedOpen { new_window, .. }) => {
                assert_eq!(new_window, WindowSize::minimum());
                assert!(
                    i as u32 <= MAX_ZERO_WINDOW_COUNT,
                    "Forced open happened at probe {i}, exceeding max of {MAX_ZERO_WINDOW_COUNT}"
                );
                forced_open_detected = true;

                scheduler.on_non_zero_ack(&tenant);
                sender.reset(&tenant);
            }
            Some(CongestionEvent::ZeroWindowHeartbeat { .. }) => {
                scheduler.on_zero_window(&tenant);
                let suppressed = sender.should_suppress_ack(&tenant, WindowSize::suspended());
                if i > 3 {
                    assert!(suppressed, "ACK should be suppressed after heartbeat {i}");
                }
            }
            None => {}
            _ => {}
        }
    }

    assert!(forced_open_detected, "Window should have been forced open within {MAX_ZERO_WINDOW_COUNT} probes");

    let metrics = controller.metrics();
    assert_eq!(metrics.zero_window_stalls_prevented, 1, "Exactly 1 stall should have been prevented");
}

#[test]
fn window_size_accessors() {
    assert!(WindowSize::suspended().is_zero());
    assert_eq!(WindowSize::minimum().value(), 1);
    assert_eq!(WindowSize::maximum().value(), 65535);
    assert_eq!(WindowSize::default().value(), 65535);
    assert_eq!(WindowSize::new(0), WindowSize::suspended());
    assert!(!WindowSize::new(7).is_zero());
}

#[test]
fn test_exponential_probe_backoff() {
    let mut scheduler = ProbeScheduler::new();
    let tenant = "alice".to_string();

    let expected_intervals_ms = [5000u64, 10000, 20000, 30000, 30000];

    for (i, &expected_ms) in expected_intervals_ms.iter().enumerate() {
        let event = scheduler.on_zero_window(&tenant);
        match event {
            Some(CongestionEvent::ProbeSent { backoff_ms, .. }) => {
                assert_eq!(backoff_ms, expected_ms, "Iteration {i}: expected {expected_ms}ms, got {backoff_ms}ms");
            }
            other => panic!("Expected ProbeSent at iteration {i}, got {other:?}"),
        }
    }
}

#[test]
fn test_backoff_resets_on_non_zero_ack() {
    let mut scheduler = ProbeScheduler::new();
    let tenant = "bob".to_string();

    scheduler.on_zero_window(&tenant);
    scheduler.on_zero_window(&tenant);
    scheduler.on_zero_window(&tenant);
    assert_eq!(scheduler.current_interval(&tenant) / 1000, 20);

    scheduler.on_non_zero_ack(&tenant);
    assert_eq!(scheduler.current_interval(&tenant) / 1000, 5);
}

#[test]
fn test_should_probe() {
    let mut scheduler = ProbeScheduler::new();
    let tenant = "carol".to_string();

    assert!(!scheduler.should_probe(&tenant));

    scheduler.on_zero_window(&tenant);
    scheduler.record_probe_sent(&tenant);
    assert!(!scheduler.should_probe(&tenant));
}

#[test]
fn probe_due_after_interval_at_given_time() {
    let mut scheduler = ProbeScheduler::new();
    let tenant = "dave".to_string();
    scheduler.on_zero_window(&tenant);
    assert!(scheduler.should_probe_at(&tenant, 0));
    scheduler.record_probe_sent_at(&tenant, 1_000);
    assert!(!scheduler.should_probe_at(&tenant, 5_999));
    assert!(scheduler.should_probe_at(&tenant, 6_000));
    assert!(!scheduler.should_probe_at(&tenant, 500));
}

#[test]
fn probe_metrics_report_largest_interval() {
    let mut scheduler = ProbeScheduler::new();
    assert_eq!(scheduler.metrics().probe_backoff_interval_ms, 5000);
    let a = "a".to_string();
    let b = "b".to_string();
    scheduler.on_zero_window(&a);
    scheduler.on_zero_window(&b);
    scheduler.on_zero_window(&b);
    assert_eq!(scheduler.metrics().probe_backoff_interval_ms, 10000);
    assert_eq!(scheduler.current_interval(&"zed".to_string()), 5000);
}

#[test]
fn test_non_zero_heartbeat_resets_counter() {
    let mut controller = WindowController::new();
    let tenant = "alice".to_string();

    for _ in 0..3 {
        controller.process_heartbeat(&tenant, WindowSize::suspended());
    }

    let result = controller.process_heartbeat(&tenant, WindowSize::new(1024));
    assert!(result.is_none());

    let result = controller.process_heartbeat(&tenant, WindowSize::suspended());
    match result {
        Some(CongestionEvent::ZeroWindowHeartbeat { consecutive_count, .. }) => {
            assert_eq!(consecutive_count, 1);
        }
        other => panic!("Expected ZeroWindowHeartbeat, got {other:?}"),
    }
}

#[test]
fn test_forced_recovery_after_six_zero_window_heartbeats() {
    let mut controller = WindowController::new();
    let tenant = "bob".to_string();

    for i in 1..=10 {
        let result = controller.process_heartbeat(&tenant, WindowSize::suspended());

        if i < 6 {
            match result {
                Some(CongestionEvent::ZeroWindowHeartbeat { consecutive_count, .. }) => {
                    assert_eq!(consecutive_count, i);
                }
                other => panic!("Expected ZeroWindowHeartbeat at iteration {i}, got {other:?}"),
            }
        } else if i == 6 {
            match result {
                Some(CongestionEvent::WindowForcedOpen { new_window, .. }) => {
                    assert_eq!(new_window, WindowSize::minimum());
                }
                other => panic!("Expected WindowForcedOpen at iteration {i}, got {other:?}"),
            }
        } else {
            match result {
                Some(CongestionEvent::ZeroWindowHeartbeat { consecutive_count, .. }) => {
                    assert_eq!(consecutive_count, i - 6);
                }
                other => panic!("Expected ZeroWindowHeartbeat at iteration {i}, got {other:?}"),
            }
        }
    }

    assert_eq!(controller.metrics().zero_window_stalls_prevented, 1);
}

#[test]
fn window_controller_reset_clears_count() {
    let mut controller = WindowController::new();
    let tenant = "erin".to_string();
    for _ in 0..5 {
        controller.process_heartbeat(&tenant, WindowSize::suspended());
    }
    controller.reset(&tenant);
    match controller.process_heartbeat(&tenant, WindowSize::suspended()) {
        Some(CongestionEvent::ZeroWindowHeartbeat { consecutive_count, tenant_id }) => {
            assert_eq!(consecutive_count, 1);
            assert_eq!(tenant_id, "erin");
        }
        other => panic!("Expected ZeroWindowHeartbeat, got {other:?}"),
    }
    assert_eq!(controller.metrics().zero_window_stalls_prevented, 0);
}

