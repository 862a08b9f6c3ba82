//! The quota gate: from an account's usage records to a runtime budget and an
//! admission decision, and from that budget to the length of a run.
//!
//! Quantities are integers in thousandths of an hour ("milli-hours").

use vstd::prelude::*;
use crate::gh::{Fault, GHError};
use crate::text::{contains, occurs_in};

verus! {

/// Core-hours an account may use per period, in milli-hours.
pub const INCLUDED_CORE_MILLI_HOURS: u64 = 180_000;

/// A run must have more than this left (one hour) to be worth starting.
pub const MIN_RUNTIME_MILLI_HOURS: u64 = 1_000;

/// Core-hours reported for an account whose usage could not be read.
pub const UNKNOWN_USAGE_MILLI_HOURS: u64 = 999_000;

/// Cores of the fleet the orchestrator runs: two four-core instances.
pub const FLEET_CORES: u64 = 8;

/// Time held back from the budget before a run, in milli-hours.
pub const SAFETY_MARGIN_MILLI_HOURS: u64 = 500;

/// Shortest run, in milli-hours.
pub const MIN_RUN_MILLI_HOURS: u64 = 500;

/// Longest run, in milli-hours: no credential holds the fleet longer.
pub const MAX_RUN_MILLI_HOURS: u64 = 20_000;

/// Largest sleep between two keep-alive rounds, in seconds (three and a half hours).
pub const KEEP_ALIVE_INTERVAL_SECS: u64 = 12_600;

/// Pause between the startup runs of one keep-alive round, in seconds.
pub const KEEP_ALIVE_STAGGER_SECS: u64 = 5;

/// A sleep shorter than this (in seconds) is not worth taking: the run ends.
pub const MIN_SLEEP_SECS: u64 = 60;

/// One usage record of an account.
#[derive(Debug, Clone)]
pub struct UsageItem {
    pub product: String,
    pub sku: String,
    /// Hours used, in milli-hours.
    pub quantity_milli: u64,
}

/// What the usage query gave.
#[derive(Debug, Clone)]
pub enum UsageReport {
    /// The records of the account.
    Fetched(Vec<UsageItem>),
    /// The query answered, but not with usage records.
    Unreadable,
    /// The query failed.
    Failed(GHError),
}

/// The quota snapshot of one account.
#[derive(Debug, Clone, Copy, PartialEq, Eq)]
pub struct BillingInfo {
    /// Core-hours used, in milli-hours.
    pub total_core_milli_hours_used: u64,
    /// Wall-clock runtime the fleet has left, in milli-hours.
    pub milli_hours_remaining: u64,
    /// Whether the remaining runtime admits a run.
    pub is_quota_ok: bool,
    /// The query failed for a passing reason (network, time limit): the
    /// credential is not to blame.
    pub is_uncertain: bool,
}

/// Cores per instance of a compute SKU; 0 for SKUs that are not counted.
pub open spec fn sku_cores(sku: Seq<char>) -> int {
    if occurs_in("compute 2-core"@, sku) {
        2
    } else if occurs_in("compute 4-core"@, sku) {
        4
    } else if occurs_in("compute 8-core"@, sku) {
        8
    } else if occurs_in("compute 16-core"@, sku) {
        16
    } else if occurs_in("compute 32-core"@, sku) {
        32
    } else {
        0
    }
}

/// Core milli-hours that one record counts for.
pub open spec fn item_core_usage(item: UsageItem) -> int {
    if item.product@ == "codespaces"@ {
        item.quantity_milli * sku_cores(item.sku@)
    } else {
        0
    }
}

/// Core milli-hours that the records count for in all.
pub open spec fn core_usage(items: Seq<UsageItem>) -> int
    decreases items.len(),
{
    if items.len() == 0 {
        0
    } else {
        core_usage(items.drop_last()) + item_core_usage(items.last())
    }
}

/// `x` capped at the largest `u64`.
pub open spec fn capped(x: int) -> int {
    if x > u64::MAX {
        u64::MAX as int
    } else {
        x
    }
}

/// Core milli-hours left of the included amount after `used`.
pub open spec fn core_left(used: int) -> int {
    if used >= INCLUDED_CORE_MILLI_HOURS {
        0
    } else {
        INCLUDED_CORE_MILLI_HOURS - used
    }
}

/// A failed query whose cause may pass by itself.
pub open spec fn is_transient(e: Fault) -> bool {
    match e {
        Fault::Timeout(_) => true,
        Fault::Command(m) => occurs_in("timeout"@, m) || occurs_in("network"@, m) || occurs_in(
            "connection"@,
            m,
        ),
        Fault::Auth(m) => occurs_in("timeout"@, m) || occurs_in("network"@, m) || occurs_in(
            "connection"@,
            m,
        ),
    }
}

proof fn lemma_core_usage_nonneg(items: Seq<UsageItem>)
    ensures
        core_usage(items) >= 0,
    decreases items.len(),
{
    if items.len() > 0 {
        lemma_core_usage_nonneg(items.drop_last());
        let it = items.last();
        let c = sku_cores(it.sku@);
        let q = it.quantity_milli as int;
        assert(q * c >= 0) by (nonlinear_arith)
            requires
                q >= 0,
                c >= 0,
        ;
    }
}

fn sku_core_count(sku: &String) -> (r: u64)
    ensures
        r == sku_cores(sku@),
{
    if contains(sku, "compute 2-core") {
        2
    } else if contains(sku, "compute 4-core") {
        4
    } else if contains(sku, "compute 8-core") {
        8
    } else if contains(sku, "compute 16-core") {
        16
    } else if contains(sku, "compute 32-core") {
        32
    } else {
        0
    }
}

fn transient(e: &GHError) -> (r: bool)
    ensures
        r == is_transient(e@),
{
    match e {
        GHError::Timeout(_) => true,
        GHError::CommandError(m) => contains(m, "timeout") || contains(m, "network") || contains(
            m,
            "connection",
        ),
        GHError::AuthError(m) => contains(m, "timeout") || contains(m, "network") || contains(
            m,
            "connection",
        ),
    }
}

/// Core milli-hours that the records count for, capped at the largest `u64`.
pub fn total_core_usage(items: &Vec<UsageItem>) -> (r: u64)
    ensures
        r == capped(core_usage(items@)),
{
    let mut total: u64 = 0;
    let mut i: usize = 0;
    while i < items.len()
        invariant
            i <= items@.len(),
            total == capped(core_usage(items@.subrange(0, i as int))),
        decreases items@.len() - i,
    {
        let item = &items[i];
        let ghost prefix = items@.subrange(0, i as int);
        let ghost next = items@.subrange(0, i + 1);
        assert(next.drop_last() =~= prefix);
        assert(next.last() == items@[i as int]);
        proof {
            lemma_core_usage_nonneg(prefix);
        }
        let cores: u64 = if same_product(&item.product) {
            sku_core_count(&item.sku)
        } else {
            0
        };
        let part: u64 = match item.quantity_milli.checked_mul(cores) {
            Some(p) => p,
            None => u64::MAX,
        };
        assert(part == capped(item_core_usage(items@[i as int])));
        total = total.saturating_add(part);
        i = i + 1;
    }
    assert(items@.subrange(0, items@.len() as int) =~= items@);
    total
}

fn same_product(product: &String) -> (r: bool)
    ensures
        r == (product@ == "codespaces"@),
{
    crate::text::same_text(product, "codespaces")
}

/// Derives the quota snapshot of an account from its usage query.
///
/// Counted records are those of the product `codespaces` with a known compute
/// SKU; each counts its hours times the SKU's cores. What is left of the
/// included core-hours, divided by the fleet's cores, is the runtime left; it
/// admits a run exactly when it exceeds the minimum runtime. A failed or
/// unreadable query admits nothing; a failure whose cause may pass marks the
/// snapshot uncertain.
pub fn get_billing_info(report: &UsageReport, fleet_cores: u64) -> (r: BillingInfo)
    requires
        fleet_cores > 0,
    ensures
        r.is_quota_ok == (r.milli_hours_remaining > MIN_RUNTIME_MILLI_HOURS),
        match report {
            UsageReport::Fetched(items) => {
                &&& r.total_core_milli_hours_used == capped(core_usage(items@))
                &&& r.milli_hours_remaining == core_left(core_usage(items@)) / fleet_cores as int
                &&& !r.is_uncertain
            },
            UsageReport::Unreadable => {
                &&& r.total_core_milli_hours_used == UNKNOWN_USAGE_MILLI_HOURS
                &&& r.milli_hours_remaining == 0
                &&& !r.is_uncertain
            },
            UsageReport::Failed(e) => {
                &&& r.is_uncertain == is_transient(e@)
                &&& r.total_core_milli_hours_used == (if r.is_uncertain {
                    0
                } else {
                    UNKNOWN_USAGE_MILLI_HOURS
                })
                &&& r.milli_hours_remaining == 0
            },
        },
{
    match report {
        UsageReport::Fetched(items) => {
            let used = total_core_usage(items);
            proof {
                lemma_core_usage_nonneg(items@);
            }
            let left: u64 = INCLUDED_CORE_MILLI_HOURS.saturating_sub(used);
            let remaining: u64 = left / fleet_cores;
            BillingInfo {
                total_core_milli_hours_used: used,
                milli_hours_remaining: remaining,
                is_quota_ok: remaining > MIN_RUNTIME_MILLI_HOURS,
                is_uncertain: false,
            }
        },
        UsageReport::Unreadable => BillingInfo {
            total_core_milli_hours_used: UNKNOWN_USAGE_MILLI_HOURS,
            milli_hours_remaining: 0,
            is_quota_ok: false,
            is_uncertain: false,
        },
        UsageReport::Failed(e) => {
            let uncertain = transient(e);
            BillingInfo {
                total_core_milli_hours_used: if uncertain {
                    0
                } else {
                    UNKNOWN_USAGE_MILLI_HOURS
                },
                milli_hours_remaining: 0,
                is_quota_ok: false,
                is_uncertain: uncertain,
            }
        },
    }
}

/// Length of a run, in milli-hours, for a remaining runtime of `remaining`
/// milli-hours: the safety margin is held back, and the result kept between
/// the shortest and the longest run.
pub open spec fn run_milli_hours(remaining: int) -> int {
    let wanted = remaining - SAFETY_MARGIN_MILLI_HOURS;
    if wanted < MIN_RUN_MILLI_HOURS {
        MIN_RUN_MILLI_HOURS as int
    } else if wanted > MAX_RUN_MILLI_HOURS {
        MAX_RUN_MILLI_HOURS as int
    } else {
        wanted
    }
}

/// Length of a run in whole seconds for a remaining runtime given in milli-hours.
pub fn run_duration_secs(milli_hours_remaining: u64) -> (r: u64)
    ensures
        r == run_milli_hours(milli_hours_remaining as int) * 36 / 10,
{
    let wanted: u64 = milli_hours_remaining.saturating_sub(SAFETY_MARGIN_MILLI_HOURS);
    let run: u64 = if wanted < MIN_RUN_MILLI_HOURS {
        MIN_RUN_MILLI_HOURS
    } else if wanted > MAX_RUN_MILLI_HOURS {
        MAX_RUN_MILLI_HOURS
    } else {
        wanted
    };
    run * 36 / 10
}

/// The next sleep of a run that lasts `run_secs` and has gone on for
/// `elapsed_secs`: what is left, but no more than the keep-alive interval.
/// `None` when that would be under the shortest useful sleep: the run ends.
pub fn keep_alive_sleep(run_secs: u64, elapsed_secs: u64) -> (r: Option<u64>)
    ensures
        ({
            let left = if elapsed_secs >= run_secs {
                0
            } else {
                run_secs - elapsed_secs
            };
            let step = if left < KEEP_ALIVE_INTERVAL_SECS {
                left
            } else {
                KEEP_ALIVE_INTERVAL_SECS as int
            };
            r == if step < MIN_SLEEP_SECS {
                None::<u64>
            } else {
                Some(step as u64)
            }
        }),
{
    let left: u64 = run_secs.saturating_sub(elapsed_secs);
    let step: u64 = if left < KEEP_ALIVE_INTERVAL_SECS {
        left
    } else {
        KEEP_ALIVE_INTERVAL_SECS
    };
    if step < MIN_SLEEP_SECS {
        None
    } else {
        Some(step)
    }
}

/// Whether a keep-alive round is due after a sleep: the run has time left.
pub fn keep_alive_due(run_secs: u64, elapsed_secs: u64) -> (r: bool)
    ensures
        r == (elapsed_secs < run_secs),
{
    elapsed_secs < run_secs
}

} // verus!
