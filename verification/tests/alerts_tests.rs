use stellar_insights::alerts::{health_status, make_corridor_alerts, AlertManager, AlertType};

#[test]
fn test_health_status_boundary() {
    assert_eq!(health_status(91), "healthy");
    assert_eq!(health_status(90), "degraded");
    assert_eq!(health_status(0), "degraded");
}

#[test]
fn test_make_corridor_alerts_all_quiet() {
    let alerts = make_corridor_alerts("c", 95, 95, 100, 100, 1000, 1000, "t");
    assert!(alerts.is_empty());
}

#[test]
fn test_make_corridor_alerts_order_and_content() {
    let alerts = make_corridor_alerts("c", 95, 80, 100, 151, 1000, 650, "t");
    assert_eq!(alerts.len(), 3);
    assert_eq!(alerts[0].alert_type, AlertType::SuccessRateDrop);
    assert_eq!(alerts[1].alert_type, AlertType::LatencyIncrease);
    assert_eq!(alerts[2].alert_type, AlertType::LiquidityDecrease);
    assert_eq!(alerts[2].message, "Liquidity decreased from $1000 to $650");
    for a in &alerts {
        assert_eq!(a.corridor_id.as_deref(), Some("c"));
        assert_eq!(a.anchor_id, None);
        assert_eq!(a.timestamp, "t");
    }
}

#[test]
fn test_subscriber_receives_copies() {
    let mut mgr = AlertManager::new();
    let sub = mgr.subscribe();
    let alerts = mgr.check_and_alert("c1", 95, 80, 100, 100, 1000, 1000);
    assert_eq!(alerts.len(), 1);
    let received = mgr.drain(sub);
    assert_eq!(received.len(), 1);
    assert_eq!(received[0].alert_type, AlertType::SuccessRateDrop);
    assert_eq!(received[0].old_value, 95);
    assert_eq!(received[0].new_value, 80);
    // Draining empties the queue.
    assert!(mgr.drain(sub).is_empty());
}

#[test]
fn test_send_without_subscriber_is_dropped() {
    let mut mgr = AlertManager::new();
    // No subscriber: the alerts are simply gone, and nothing blocks.
    let alerts = mgr.check_and_alert("c1", 95, 80, 100, 100, 1000, 1000);
    assert_eq!(alerts.len(), 1);
    let sub = mgr.subscribe();
    assert!(mgr.drain(sub).is_empty());
}

#[test]
fn test_slow_subscriber_drops_beyond_capacity() {
    let mut mgr = AlertManager::new();
    let sub = mgr.subscribe();
    for _ in 0..120 {
        let produced = mgr.check_and_alert("c1", 95, 80, 100, 100, 1000, 1000);
        assert_eq!(produced.len(), 1);
    }
    // The queue is bounded at 100; the overflow was silently dropped.
    let received = mgr.drain(sub);
    assert_eq!(received.len(), 100);
}

#[test]
fn test_anchor_alert_and_notification_statuses() {
    let mut mgr = AlertManager::new_with_webhooks();
    let sub = mgr.subscribe();
    let alert = mgr.send_anchor_alert(
        AlertType::AnchorStatusChange,
        "anchor-7",
        "status changed".to_string(),
        95,
        80,
    );
    assert_eq!(alert.alert_type, AlertType::AnchorStatusChange);
    assert_eq!(alert.anchor_id.as_deref(), Some("anchor-7"));
    assert_eq!(alert.corridor_id, None);
    assert_eq!(alert.old_value, 95);
    assert_eq!(alert.new_value, 80);

    let received = mgr.drain(sub);
    assert_eq!(received.len(), 1);

    let pending = mgr.take_notifications();
    assert_eq!(pending.len(), 1);
    assert_eq!(pending[0].anchor_id, "anchor-7");
    assert_eq!(pending[0].old_status, "healthy");
    assert_eq!(pending[0].new_status, "degraded");
    assert_eq!(pending[0].new_value, 80);
    assert_eq!(pending[0].failed_count, 0);
    // Draining empties the hand-off queue.
    assert!(mgr.take_notifications().is_empty());
}

#[test]
fn test_no_notification_without_webhooks() {
    let mut mgr = AlertManager::new();
    let _ = mgr.send_anchor_alert(
        AlertType::AnchorStatusChange,
        "anchor-7",
        "status changed".to_string(),
        95,
        80,
    );
    assert!(mgr.take_notifications().is_empty());
}
