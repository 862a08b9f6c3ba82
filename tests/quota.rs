use orchestrator::quota::{
    keep_alive_due, keep_alive_sleep, run_duration_secs, total_core_usage, FLEET_CORES,
    KEEP_ALIVE_INTERVAL_SECS,
};
use orchestrator::{get_billing_info, GHError, UsageItem, UsageReport};

fn item(product: &str, sku: &str, quantity_milli: u64) -> UsageItem {
    UsageItem { product: product.to_string(), sku: sku.to_string(), quantity_milli }
}

#[test]
fn usage_counts_cores_of_known_skus() {
    let items = vec![
        item("codespaces", "Codespaces compute 2-core", 10_000),
        item("codespaces", "Codespaces compute 4-core", 1_500),
        item("codespaces", "Codespaces storage", 99_000),
        item("actions", "Actions compute 4-core", 7_000),
        item("codespaces", "Codespaces compute 32-core", 1_000),
    ];
    assert_eq!(total_core_usage(&items), 20_000 + 6_000 + 32_000);
}

#[test]
fn billing_from_records() {
    let report = UsageReport::Fetched(vec![item("codespaces", "compute 4-core", 20_000)]);
    let info = get_billing_info(&report, FLEET_CORES);
    assert_eq!(info.total_core_milli_hours_used, 80_000);
    assert_eq!(info.milli_hours_remaining, 12_500);
    assert!(info.is_quota_ok);
    assert!(!info.is_uncertain);
}

#[test]
fn quota_exactly_at_threshold_is_rejected() {
    let report = UsageReport::Fetched(vec![item("codespaces", "compute 2-core", 86_000)]);
    let info = get_billing_info(&report, FLEET_CORES);
    assert_eq!(info.milli_hours_remaining, 1_000);
    assert!(!info.is_quota_ok);
}

#[test]
fn quota_just_above_threshold_is_admitted() {
    let report = UsageReport::Fetched(vec![item("codespaces", "compute 2-core", 85_996)]);
    let info = get_billing_info(&report, FLEET_CORES);
    assert_eq!(info.milli_hours_remaining, 1_001);
    assert!(info.is_quota_ok);
}

#[test]
fn exhausted_quota_stays_at_zero() {
    let report = UsageReport::Fetched(vec![item("codespaces", "compute 32-core", u64::MAX / 2)]);
    let info = get_billing_info(&report, FLEET_CORES);
    assert_eq!(info.total_core_milli_hours_used, u64::MAX);
    assert_eq!(info.milli_hours_remaining, 0);
    assert!(!info.is_quota_ok);
}

#[test]
fn empty_usage_leaves_full_quota() {
    let info = get_billing_info(&UsageReport::Fetched(vec![]), FLEET_CORES);
    assert_eq!(info.total_core_milli_hours_used, 0);
    assert_eq!(info.milli_hours_remaining, 22_500);
    assert!(info.is_quota_ok);
}

#[test]
fn unreadable_usage_admits_nothing() {
    let info = get_billing_info(&UsageReport::Unreadable, FLEET_CORES);
    assert_eq!(info.total_core_milli_hours_used, 999_000);
    assert!(!info.is_quota_ok);
    assert!(!info.is_uncertain);
}

#[test]
fn transient_query_failure_is_uncertain() {
    let t = get_billing_info(&UsageReport::Failed(GHError::Timeout("x".to_string())), FLEET_CORES);
    assert!(t.is_uncertain && !t.is_quota_ok);
    assert_eq!(t.total_core_milli_hours_used, 0);
    let n = get_billing_info(
        &UsageReport::Failed(GHError::CommandError("network unreachable".to_string())),
        FLEET_CORES,
    );
    assert!(n.is_uncertain && !n.is_quota_ok);
}

#[test]
fn auth_query_failure_is_exhausted() {
    let a = get_billing_info(
        &UsageReport::Failed(GHError::CommandError("HTTP 401".to_string())),
        FLEET_CORES,
    );
    assert!(!a.is_uncertain && !a.is_quota_ok);
    assert_eq!(a.total_core_milli_hours_used, 999_000);
}

#[test]
fn run_duration_for_five_and_a_half_hours() {
    assert_eq!(run_duration_secs(5_500), 18_000);
    assert_eq!(keep_alive_sleep(18_000, 0), Some(KEEP_ALIVE_INTERVAL_SECS));
    assert!(keep_alive_due(18_000, 12_600));
    assert_eq!(keep_alive_sleep(18_000, 12_600), Some(5_400));
    assert!(!keep_alive_due(18_000, 18_000));
    assert_eq!(keep_alive_sleep(18_000, 18_000), None);
}

#[test]
fn run_duration_bounds() {
    assert_eq!(run_duration_secs(0), 1_800);
    assert_eq!(run_duration_secs(700), 1_800);
    assert_eq!(run_duration_secs(100_000), 72_000);
}

#[test]
fn short_remainder_ends_the_run() {
    assert_eq!(keep_alive_sleep(1_000, 950), None);
    assert_eq!(keep_alive_sleep(1_000, 940), Some(60));
}
