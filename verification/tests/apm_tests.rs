use stellar_insights::apm::{parse_platform, ApmMetrics, ApmPlatform};
use stellar_insights::strutil::u64_to_string;
use stellar_insights::vault::VaultError;

#[test]
fn test_apm_platform_from_string() {
    assert!(matches!(
        ApmPlatform::from("newrelic".to_string()),
        ApmPlatform::NewRelic
    ));
    assert!(matches!(
        ApmPlatform::from("datadog".to_string()),
        ApmPlatform::Datadog
    ));
    assert!(matches!(
        ApmPlatform::from("opentelemetry".to_string()),
        ApmPlatform::OpenTelemetry
    ));
}

#[test]
fn test_apm_platform_case_and_fallback() {
    assert!(matches!(parse_platform("NewRelic"), ApmPlatform::NewRelic));
    assert!(matches!(parse_platform("DATA_DOG"), ApmPlatform::Datadog));
    assert!(matches!(parse_platform("otel"), ApmPlatform::OpenTelemetry));
    assert!(matches!(
        parse_platform("anything else"),
        ApmPlatform::OpenTelemetry
    ));
}

#[test]
fn test_apm_metrics_empty_builds() {
    let metrics = ApmMetrics::empty();
    assert_eq!(metrics, ApmMetrics::empty());
}

#[test]
fn test_u64_rendering() {
    assert_eq!(u64_to_string(0), "0");
    assert_eq!(u64_to_string(7), "7");
    assert_eq!(u64_to_string(1234567890), "1234567890");
    assert_eq!(u64_to_string(u64::MAX), "18446744073709551615");
}

#[test]
fn test_vault_error_variants_carry_context() {
    let e = VaultError::SecretNotFound("kv/apps/ledger".to_string());
    assert!(matches!(e, VaultError::SecretNotFound(ref p) if p == "kv/apps/ledger"));
    assert!(matches!(VaultError::VaultUnavailable, VaultError::VaultUnavailable));
}
