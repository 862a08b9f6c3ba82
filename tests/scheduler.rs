use orchestrator::command::Step;
use orchestrator::quota::FLEET_CORES;
use orchestrator::reconcile::standard_slots;
use orchestrator::{
    verification_targets,
    ensure_healthy_codespaces, get_billing_info, wait_and_run_startup_script, Config, Directive,
    GHError, ReconcileOutcome, Scheduler, State, UsageItem, UsageReport,
};

fn state(index: usize, one: &str, two: &str) -> State {
    State {
        current_account_index: index,
        mawari_node_1_name: one.to_string(),
        mawari_node_2_name: two.to_string(),
    }
}

#[test]
fn default_state_is_empty() {
    let s = State::default();
    assert_eq!(s.current_account_index, 0);
    assert!(s.mawari_node_1_name.is_empty() && s.mawari_node_2_name.is_empty());
}

#[test]
fn config_needs_a_token() {
    assert!(!Config { tokens: vec![] }.is_usable());
    assert!(Config { tokens: vec!["t".to_string()] }.is_usable());
}

#[test]
fn out_of_range_index_resets_to_zero() {
    let s = Scheduler::new(2, state(5, "a", "b"));
    assert_eq!(s.active_index(), 0);
    assert_eq!(s.state().mawari_node_1_name, "a");
}

#[test]
fn rotations_visit_every_credential_once() {
    let mut s = Scheduler::new(3, state(1, "", ""));
    let seen: Vec<usize> = (0..3).map(|_| s.switch_to_next_token()).collect();
    assert_eq!(seen, vec![2, 0, 1]);
    assert_eq!(s.active_index(), 1);
}

#[test]
fn rotation_clears_slot_identities() {
    let mut s = Scheduler::new(2, state(0, "cs-a", "cs-b"));
    assert_eq!(s.switch_to_next_token(), 1);
    assert_eq!(s.state().mawari_node_1_name, "");
    assert_eq!(s.state().mawari_node_2_name, "");
}

#[test]
fn low_quota_rotates_and_clears() {
    let mut s = Scheduler::new(2, State::default());
    let usage = UsageReport::Fetched(vec![UsageItem {
        product: "codespaces".to_string(),
        sku: "Codespaces compute 4-core".to_string(),
        quantity_milli: 44_400,
    }]);
    let info = get_billing_info(&usage, FLEET_CORES);
    assert_eq!(info.milli_hours_remaining, 300);
    assert!(!info.is_quota_ok);
    let d = s.after_quota(&info);
    assert_eq!(d, Directive::Restart { checkpoint: true, wait_secs: 5 });
    assert_eq!(s.state().current_account_index, 1);
    assert_eq!(s.state().mawari_node_1_name, "");
    assert_eq!(s.state().mawari_node_2_name, "");
    assert_eq!(s.failures(), 0);
}

#[test]
fn admitted_quota_proceeds() {
    let mut s = Scheduler::new(2, State::default());
    let info = get_billing_info(&UsageReport::Fetched(vec![]), FLEET_CORES);
    assert_eq!(s.after_quota(&info), Directive::Proceed { checkpoint: false });
    assert_eq!(s.active_index(), 0);
}

#[test]
fn validation_failures_cool_down_at_the_limit() {
    let mut s = Scheduler::new(4, State::default());
    assert_eq!(s.after_validation(false), Directive::Restart { checkpoint: true, wait_secs: 5 });
    assert_eq!(s.after_validation(false), Directive::Restart { checkpoint: true, wait_secs: 5 });
    assert_eq!(s.after_validation(false), Directive::Restart { checkpoint: true, wait_secs: 605 });
    assert_eq!(s.failures(), 0);
    assert_eq!(s.active_index(), 3);
    assert_eq!(s.after_validation(false), Directive::Restart { checkpoint: true, wait_secs: 5 });
    assert_eq!(s.failures(), 1);
    assert_eq!(s.after_validation(true), Directive::Proceed { checkpoint: false });
    assert_eq!(s.failures(), 0);
    assert_eq!(s.active_index(), 0);
}

#[test]
fn reconcile_failures_retry_then_cool_down() {
    let mut s = Scheduler::new(2, state(1, "", ""));
    let failed = ReconcileOutcome::Failed(GHError::CommandError("x".to_string()));
    assert_eq!(s.after_reconcile(&failed), Directive::Restart { checkpoint: false, wait_secs: 300 });
    assert_eq!(s.after_reconcile(&failed), Directive::Restart { checkpoint: false, wait_secs: 300 });
    assert_eq!(s.after_reconcile(&failed), Directive::Restart { checkpoint: false, wait_secs: 900 });
    assert_eq!(s.active_index(), 1);
}

#[test]
fn reconciled_fleet_is_checkpointed() {
    let mut s = Scheduler::new(2, state(1, "old", ""));
    let ready = ReconcileOutcome::Ready(vec![Some("cs-a".to_string()), None]);
    assert_eq!(s.after_reconcile(&ready), Directive::Proceed { checkpoint: true });
    assert_eq!(s.state().current_account_index, 1);
    assert_eq!(s.state().mawari_node_1_name, "cs-a");
    assert_eq!(s.state().mawari_node_2_name, "");
    assert_eq!(s.after_run(), Directive::Restart { checkpoint: true, wait_secs: 30 });
    assert_eq!(s.active_index(), 0);
}

#[test]
fn restart_after_checkpoint_reuses_identities() {
    let mut before = Scheduler::new(3, State::default());
    before.switch_to_next_token();
    let ready = ReconcileOutcome::Ready(vec![Some("cs-a".to_string()), Some("cs-b".to_string())]);
    before.after_reconcile(&ready);
    let saved = before.state().clone();
    let after = Scheduler::new(3, saved);
    assert_eq!(after.active_index(), 1);
    assert_eq!(after.state().mawari_node_1_name, "cs-a");
    assert_eq!(after.state().mawari_node_2_name, "cs-b");
    let listing = "[{\"name\":\"cs-a\",\"repository\":{\"nameWithOwner\":\"o/r\"},\"state\":\"Available\",\"displayName\":\"mawari-multi-node-1\"},{\"name\":\"cs-b\",\"repository\":{\"nameWithOwner\":\"o/r\"},\"state\":\"Available\",\"displayName\":\"mawari-multi-node-2\"}]";
    let mut r = ensure_healthy_codespaces("o/r", standard_slots());
    r.step(&Ok(listing.to_string()));
    r.step(&Ok("healthy".to_string()));
    r.step(&Ok("healthy".to_string()));
    match r.action() {
        Step::Complete(ReconcileOutcome::Ready(ids)) => {
            assert_eq!(ids, vec![Some("cs-a".to_string()), Some("cs-b".to_string())])
        }
        other => panic!("unexpected {:?}", other),
    }
}

fn round_targets(s: &Scheduler) -> Vec<(String, String)> {
    s.restart_nodes("/workspaces/r/mawari/auto-start.sh")
        .iter()
        .map(|run| match run.action() {
            Step::Run { command, .. } => (command.args[3].clone(), command.args[5].clone()),
            Step::Complete(_) => panic!("finished before starting"),
        })
        .collect()
}

#[test]
fn keep_alive_round_twice_changes_nothing() {
    let s = Scheduler::new(2, state(1, "cs-a", "cs-b"));
    let first = round_targets(&s);
    let second = round_targets(&s);
    assert_eq!(first, second);
    assert_eq!(first.len(), 2);
    assert_eq!(first[0].0, "cs-a");
    assert_eq!(first[1].0, "cs-b");
    assert_eq!(s.active_index(), 1);
    assert_eq!(s.state().mawari_node_1_name, "cs-a");
    assert_eq!(s.state().mawari_node_2_name, "cs-b");
}

#[test]
fn keep_alive_skips_unknown_slots() {
    let s = Scheduler::new(2, state(0, "", "cs-b"));
    let runs = round_targets(&s);
    assert_eq!(runs.len(), 1);
    assert_eq!(runs[0].0, "cs-b");
}

#[test]
fn startup_run_launches_after_ready() {
    let mut run = wait_and_run_startup_script("cs-a", "/w/s.sh", "PRIMARY");
    run.step(&Err(GHError::Timeout("t".to_string())));
    match run.action() {
        Step::Run { wait_secs, .. } => assert_eq!(wait_secs, 15),
        Step::Complete(_) => panic!("finished early"),
    }
    run.step(&Ok("ready".to_string()));
    match run.action() {
        Step::Run { command, .. } => assert_eq!(
            command.args[5],
            "bash -l -c 'export SETUP_MODE=PRIMARY && nohup bash /w/s.sh > /tmp/mawari_startup.log 2>&1 & echo $!'"
        ),
        Step::Complete(_) => panic!("finished early"),
    }
    run.step(&Err(GHError::CommandError("exec failed".to_string())));
    assert!(matches!(run.action(), Step::Complete(Ok(()))));
}

#[test]
fn verification_targets_follow_the_state() {
    assert_eq!(verification_targets(&state(2, "a", "b"), 2), None);
    assert_eq!(verification_targets(&state(1, "a", "b"), 2), Some(vec!["a".to_string(), "b".to_string()]));
    assert_eq!(verification_targets(&state(0, "", "b"), 1), Some(vec!["b".to_string()]));
    assert_eq!(verification_targets(&state(0, "", ""), 1), Some(vec![]));
}
