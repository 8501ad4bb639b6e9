use stellar_insights::alerts::AlertType;
use stellar_insights::monitor::{
    derive_snapshots, parse_amount_stroops, AnchorMetrics, AnchorMonitor, CorridorMonitor,
    CorridorState, corridor_key, make_anchor_alerts,
};
use stellar_insights::stellar::Payment;

fn snapshot(success_rate: u64, latency: u64, liquidity: u64) -> CorridorState {
    CorridorState {
        success_rate,
        latency,
        liquidity,
    }
}

#[test]
fn test_success_rate_drop_fires_exactly_once() {
    let mut monitor = CorridorMonitor::new();
    let id = "USDC:GA:->XLM:native".to_string();
    let first = monitor.observe(&id, snapshot(95, 100, 1000), "t0");
    assert!(first.is_empty());
    let alerts = monitor.observe(&id, snapshot(80, 100, 1000), "t1");
    assert_eq!(alerts.len(), 1);
    assert_eq!(alerts[0].alert_type, AlertType::SuccessRateDrop);
    assert_eq!(alerts[0].old_value, 95);
    assert_eq!(alerts[0].new_value, 80);
    assert_eq!(alerts[0].corridor_id.as_deref(), Some(id.as_str()));
    assert_eq!(alerts[0].anchor_id, None);
    assert_eq!(alerts[0].message, "Success rate dropped from 95% to 80%");
    assert_eq!(alerts[0].timestamp, "t1");
}

#[test]
fn test_liquidity_decrease_threshold() {
    let mut monitor = CorridorMonitor::new();
    let id = "c".to_string();
    assert!(monitor.observe(&id, snapshot(95, 100, 1000), "t0").is_empty());
    // A 35% drop fires exactly one liquidity alert.
    let alerts = monitor.observe(&id, snapshot(95, 100, 650), "t1");
    assert_eq!(alerts.len(), 1);
    assert_eq!(alerts[0].alert_type, AlertType::LiquidityDecrease);
    assert_eq!(alerts[0].old_value, 1000);
    assert_eq!(alerts[0].new_value, 650);

    // Back up, then a 25% drop fires nothing.
    let mut monitor2 = CorridorMonitor::new();
    assert!(monitor2.observe(&id, snapshot(95, 100, 1000), "t0").is_empty());
    let alerts = monitor2.observe(&id, snapshot(95, 100, 750), "t1");
    assert!(alerts.is_empty());
}

#[test]
fn test_first_observation_never_alerts() {
    // Two separate monitor instances, fed the identical pair, each stay
    // silent on the very first observation of the entity.
    let id = "fresh".to_string();
    let mut a = CorridorMonitor::new();
    let mut b = CorridorMonitor::new();
    let first_a = a.observe(&id, snapshot(10, 10_000, 1), "t0");
    let first_b = b.observe(&id, snapshot(10, 10_000, 1), "t0");
    assert!(first_a.is_empty());
    assert!(first_b.is_empty());
    // And both raise the identical alerts on the second observation.
    let second_a = a.observe(&id, snapshot(10, 20_000, 1), "t1");
    let second_b = b.observe(&id, snapshot(10, 20_000, 1), "t1");
    assert_eq!(second_a.len(), 1);
    assert_eq!(second_b.len(), 1);
    assert_eq!(second_a[0].alert_type, second_b[0].alert_type);
    assert_eq!(second_a[0].message, second_b[0].message);
}

#[test]
fn test_threshold_boundaries_are_strict() {
    let mut monitor = CorridorMonitor::new();
    let id = "edge".to_string();
    assert!(monitor.observe(&id, snapshot(95, 100, 1000), "t0").is_empty());
    // Exactly ten points, exactly half again, exactly seventy percent:
    // none of them fire.
    let alerts = monitor.observe(&id, snapshot(85, 150, 700), "t1");
    assert!(alerts.is_empty());
    // One past each threshold: all three fire, in a fixed order.
    let alerts = monitor.observe(&id, snapshot(74, 227, 489), "t2");
    assert_eq!(alerts.len(), 3);
    assert_eq!(alerts[0].alert_type, AlertType::SuccessRateDrop);
    assert_eq!(alerts[1].alert_type, AlertType::LatencyIncrease);
    assert_eq!(alerts[2].alert_type, AlertType::LiquidityDecrease);
}

#[test]
fn test_latency_increase_message() {
    let mut monitor = CorridorMonitor::new();
    let id = "lat".to_string();
    assert!(monitor.observe(&id, snapshot(95, 100, 1000), "t0").is_empty());
    let alerts = monitor.observe(&id, snapshot(95, 151, 1000), "t1");
    assert_eq!(alerts.len(), 1);
    assert_eq!(alerts[0].alert_type, AlertType::LatencyIncrease);
    assert_eq!(alerts[0].message, "Latency increased from 100ms to 151ms");
    let alerts = monitor.observe(&id, snapshot(95, 226, 1000), "t2");
    assert!(alerts.is_empty()); // 226 is not more than 1.5 * 151
}

#[test]
fn test_parse_amount_stroops() {
    assert_eq!(parse_amount_stroops("100.0000000"), 1_000_000_000);
    assert_eq!(parse_amount_stroops("1234.56"), 12_345_600_000);
    assert_eq!(parse_amount_stroops("5"), 50_000_000);
    assert_eq!(parse_amount_stroops("0.0000001"), 1);
    assert_eq!(parse_amount_stroops("1.23456789"), 12_345_678); // truncated
    assert_eq!(parse_amount_stroops("7."), 70_000_000);
    assert_eq!(parse_amount_stroops(""), 0);
    assert_eq!(parse_amount_stroops("abc"), 0);
    assert_eq!(parse_amount_stroops(".5"), 0);
    assert_eq!(parse_amount_stroops("1.2.3"), 0);
    assert_eq!(parse_amount_stroops("-1"), 0);
    // A value beyond the range saturates instead of failing.
    assert_eq!(
        parse_amount_stroops("99999999999999999999999999"),
        u64::MAX
    );
}

fn payment(code: Option<&str>, issuer: Option<&str>, amount: &str) -> Payment {
    Payment {
        id: "p".to_string(),
        paging_token: "pt".to_string(),
        transaction_hash: "h".to_string(),
        source_account: "GA".to_string(),
        destination: "GB".to_string(),
        asset_type: if code.is_some() {
            "credit_alphanum4".to_string()
        } else {
            "native".to_string()
        },
        asset_code: code.map(|s| s.to_string()),
        asset_issuer: issuer.map(|s| s.to_string()),
        amount: amount.to_string(),
        created_at: "t".to_string(),
    }
}

#[test]
fn test_corridor_key_shapes() {
    let native = payment(None, None, "1");
    assert_eq!(corridor_key(&native), "XLM:native->XLM:native");
    let issued = payment(Some("USDC"), Some("GAXY"), "1");
    assert_eq!(corridor_key(&issued), "USDC:GAXY->XLM:native");
}

#[test]
fn test_derive_snapshots_groups_and_sums() {
    let payments = vec![
        payment(None, None, "100.0000000"),
        payment(Some("USDC"), Some("GAXY"), "50"),
        payment(None, None, "2.5"),
        payment(Some("USDC"), Some("GAXY"), "not a number"),
    ];
    let groups = derive_snapshots(&payments);
    assert_eq!(groups.len(), 2);
    assert_eq!(groups[0].0, "XLM:native->XLM:native");
    assert_eq!(groups[0].1.success_rate, 100);
    assert_eq!(groups[0].1.latency, 600);
    assert_eq!(groups[0].1.liquidity, 1_025_000_000); // 100 + 2.5 in stroops
    assert_eq!(groups[1].0, "USDC:GAXY->XLM:native");
    assert_eq!(groups[1].1.liquidity, 500_000_000); // the bad amount counts as zero
}

#[test]
fn test_process_payments_cycle() {
    let mut monitor = CorridorMonitor::new();
    let page1 = vec![
        payment(None, None, "700"),
        payment(None, None, "300"),
        payment(Some("USDC"), Some("GAXY"), "50"),
    ];
    // The first cycle has no baseline: no alert for any corridor.
    let alerts = monitor.process_payments(&page1, "t0");
    assert!(alerts.is_empty());

    // The second cycle drops the native corridor's liquidity by 35%.
    let page2 = vec![
        payment(None, None, "650"),
        payment(Some("USDC"), Some("GAXY"), "50"),
    ];
    let alerts = monitor.process_payments(&page2, "t1");
    assert_eq!(alerts.len(), 1);
    assert_eq!(alerts[0].alert_type, AlertType::LiquidityDecrease);
    assert_eq!(alerts[0].old_value, 10_000_000_000);
    assert_eq!(alerts[0].new_value, 6_500_000_000);
    assert_eq!(
        alerts[0].corridor_id.as_deref(),
        Some("XLM:native->XLM:native")
    );

    // A third cycle with the same page compares against the second, not
    // the first: nothing fires.
    let alerts = monitor.process_payments(&page2, "t2");
    assert!(alerts.is_empty());
}

#[test]
fn test_anchor_monitor_thresholds() {
    let mut monitor = AnchorMonitor::new();
    let id = "anchor-1".to_string();
    let first = monitor.observe(
        &id,
        AnchorMetrics {
            transaction_count: 10,
            success_rate: 99,
            avg_latency: 200,
        },
        "t0",
    );
    assert!(first.is_empty());
    let alerts = monitor.observe(
        &id,
        AnchorMetrics {
            transaction_count: 10,
            success_rate: 80,
            avg_latency: 400,
        },
        "t1",
    );
    assert_eq!(alerts.len(), 2);
    assert_eq!(alerts[0].alert_type, AlertType::AnchorMetricChange);
    assert_eq!(
        alerts[0].message,
        "Anchor 'anchor-1' success rate dropped from 99% to 80%"
    );
    assert_eq!(alerts[1].alert_type, AlertType::AnchorMetricChange);
    assert_eq!(
        alerts[1].message,
        "Anchor 'anchor-1' latency increased from 200ms to 400ms"
    );
    assert_eq!(alerts[0].anchor_id.as_deref(), Some("anchor-1"));
    assert_eq!(alerts[0].corridor_id, None);
}

#[test]
fn test_make_anchor_alerts_quiet_when_stable() {
    let old = AnchorMetrics {
        transaction_count: 5,
        success_rate: 95,
        avg_latency: 100,
    };
    let new = AnchorMetrics {
        transaction_count: 9,
        success_rate: 93,
        avg_latency: 120,
    };
    let alerts = make_anchor_alerts("a", &old, &new, "t");
    assert!(alerts.is_empty());
}
