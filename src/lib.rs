//! Control logic for keeping a small fleet of remote development instances
//! alive across a pool of metered credentials: command classification, the
//! quota gate, instance reconciliation, startup runs and the scheduler that
//! rotates credentials.

pub mod command;
pub mod gh;
pub mod listing;
pub mod quota;
pub mod reconcile;
pub mod scheduler;
pub mod startup;
pub mod text;

pub use gh::{get_username, verify_codespace, GHError, RawOutcome};
pub use quota::{get_billing_info, BillingInfo, UsageItem, UsageReport};
pub use reconcile::{ensure_healthy_codespaces, ReconcileOutcome, Reconciler, SlotSpec};
pub use scheduler::{verification_targets, Config, Directive, Scheduler, State};
pub use startup::{wait_and_run_startup_script, StartupRun};
