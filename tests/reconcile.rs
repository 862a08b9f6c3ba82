use orchestrator::command::{CommandSpec, Step};
use orchestrator::listing::{parse_listing, Listed};
use orchestrator::reconcile::standard_slots;
use orchestrator::{ensure_healthy_codespaces, GHError, ReconcileOutcome, Reconciler};

const REPO: &str = "owner/fleet";

fn expect_run(r: &Reconciler) -> (u64, CommandSpec) {
    match r.action() {
        Step::Run { wait_secs, command } => (wait_secs, command),
        Step::Complete(o) => panic!("finished early: {:?}", o),
    }
}

fn expect_outcome(r: &Reconciler) -> ReconcileOutcome {
    match r.action() {
        Step::Complete(o) => o,
        Step::Run { command, .. } => panic!("still running: {:?}", command.args),
    }
}

fn ok(s: &str) -> Result<String, GHError> {
    Ok(s.to_string())
}

fn listing_json(entries: &[(&str, &str, &str)]) -> String {
    let parts: Vec<String> = entries
        .iter()
        .map(|(name, state, label)| {
            format!(
                "{{\"name\":\"{}\",\"repository\":{{\"nameWithOwner\":\"{}\"}},\"state\":\"{}\",\"displayName\":\"{}\"}}",
                name, REPO, state, label
            )
        })
        .collect();
    format!("[{}]", parts.join(","))
}

fn bring_up(r: &mut Reconciler, name: &str, mode: &str) {
    let (wait, cmd) = expect_run(r);
    assert_eq!(wait, 5);
    assert_eq!(cmd.args, vec!["codespace", "ssh", "-c", name, "--", "echo 'ready'"]);
    r.step(&ok("ready"));
    let (_, cmd) = expect_run(r);
    assert_eq!(cmd.args[3], name);
    assert!(cmd.args[5].contains(&format!("SETUP_MODE={}", mode)));
    assert!(cmd.args[5].contains("/workspaces/fleet/mawari/auto-start.sh"));
    r.step(&ok("4242"));
}

#[test]
fn listing_is_parsed() {
    let text = listing_json(&[("cs-1", "Available", "mawari-multi-node-1")]);
    let records = parse_listing(&text);
    assert_eq!(records.len(), 1);
    assert_eq!(records[0].name, "cs-1");
    assert_eq!(records[0].repository, REPO);
    assert_eq!(records[0].state, "Available");
    assert_eq!(records[0].display_name, "mawari-multi-node-1");
}

#[test]
fn malformed_listing_is_empty() {
    assert!(parse_listing("").is_empty());
    assert!(parse_listing("not json").is_empty());
    let partial = parse_listing("[{\"name\": 5}]");
    assert_eq!(partial.len(), 1);
    assert_eq!(partial[0].name, "");
}

#[test]
fn absent_slots_are_created_and_started() {
    let mut r = ensure_healthy_codespaces(REPO, standard_slots());
    let (wait, cmd) = expect_run(&r);
    assert_eq!(wait, 0);
    assert_eq!(cmd.args, vec!["codespace", "list", "--json", "name,repository,state,displayName"]);
    r.step(&ok("[]"));
    let (_, cmd) = expect_run(&r);
    assert_eq!(cmd.args[1], "create");
    assert_eq!(cmd.args[7], "mawari-multi-node-1");
    assert_eq!(cmd.timeout_secs, 120);
    r.step(&ok("cs-one\nextra line"));
    bring_up(&mut r, "cs-one", "PRIMARY");
    let (wait, cmd) = expect_run(&r);
    assert_eq!(wait, 15);
    assert_eq!(cmd.args[7], "mawari-multi-node-2");
    r.step(&ok("  cs-two  "));
    bring_up(&mut r, "cs-two", "SECONDARY");
    match expect_outcome(&r) {
        ReconcileOutcome::Ready(ids) => {
            assert_eq!(ids, vec![Some("cs-one".to_string()), Some("cs-two".to_string())])
        }
        other => panic!("unexpected {:?}", other),
    }
}

#[test]
fn healthy_instance_is_reused_and_unhealthy_replaced() {
    let mut r = ensure_healthy_codespaces(REPO, standard_slots());
    r.step(&Ok(listing_json(&[
        ("cs-a", "Available", "mawari-multi-node-1"),
        ("cs-b", "Available", "mawari-multi-node-2"),
    ])));
    let (_, cmd) = expect_run(&r);
    assert_eq!(cmd.args[1], "ssh");
    assert_eq!(cmd.args[3], "cs-a");
    r.step(&ok("healthy"));
    let (_, cmd) = expect_run(&r);
    assert_eq!(cmd.args[3], "cs-b");
    r.step(&ok("unhealthy"));
    let (_, cmd) = expect_run(&r);
    assert_eq!(cmd.args, vec!["codespace", "stop", "-c", "cs-b"]);
    r.step(&ok(""));
    let (wait, cmd) = expect_run(&r);
    assert_eq!(wait, 3);
    assert_eq!(cmd.args, vec!["codespace", "delete", "-c", "cs-b", "--force"]);
    r.step(&ok(""));
    let (wait, cmd) = expect_run(&r);
    assert_eq!(wait, 2);
    assert_eq!(cmd.args[1], "create");
    assert_eq!(cmd.args[7], "mawari-multi-node-2");
    r.step(&ok("cs-c"));
    bring_up(&mut r, "cs-c", "SECONDARY");
    match expect_outcome(&r) {
        ReconcileOutcome::Ready(ids) => {
            assert_eq!(ids, vec![Some("cs-a".to_string()), Some("cs-c".to_string())])
        }
        other => panic!("unexpected {:?}", other),
    }
}

#[test]
fn foreign_and_stopped_instances() {
    let other_repo = "[{\"name\":\"cs-x\",\"repository\":{\"nameWithOwner\":\"someone/else\"},\"state\":\"Available\",\"displayName\":\"mawari-multi-node-1\"}]";
    let mut r = ensure_healthy_codespaces(REPO, standard_slots());
    r.step(&ok(other_repo));
    let (_, cmd) = expect_run(&r);
    assert_eq!(cmd.args[1], "create");
    let mut s = ensure_healthy_codespaces(REPO, standard_slots());
    s.step(&Ok(listing_json(&[("cs-s", "Shutdown", "mawari-multi-node-1")])));
    let (_, cmd) = expect_run(&s);
    assert_eq!(cmd.args, vec!["codespace", "delete", "-c", "cs-s", "--force"]);
    let mut t = ensure_healthy_codespaces(REPO, standard_slots());
    t.step(&Ok(listing_json(&[("cs-r", "Running", "mawari-multi-node-2")])));
    let (_, cmd) = expect_run(&t);
    assert_eq!(cmd.args, vec!["codespace", "stop", "-c", "cs-r"]);
}

#[test]
fn failed_deletes_do_not_block() {
    let mut r = ensure_healthy_codespaces(REPO, standard_slots());
    r.step(&Ok(listing_json(&[("cs-s", "Shutdown", "mawari-multi-node-1")])));
    for _ in 0..2 {
        r.step(&Err(GHError::CommandError("busy".to_string())));
        let (wait, cmd) = expect_run(&r);
        assert_eq!(wait, 3);
        assert_eq!(cmd.args[1], "delete");
    }
    r.step(&Err(GHError::CommandError("busy".to_string())));
    let (wait, cmd) = expect_run(&r);
    assert_eq!(wait, 0);
    assert_eq!(cmd.args[1], "create");
}

#[test]
fn creation_retries_are_bounded() {
    let slots = vec![standard_slots().remove(0)];
    let mut r = ensure_healthy_codespaces(REPO, slots);
    r.step(&ok(""));
    let mut creates = 0;
    let mut waits = vec![];
    loop {
        match r.action() {
            Step::Run { wait_secs, command } => {
                assert_eq!(command.args[1], "create");
                creates += 1;
                waits.push(wait_secs);
                r.step(&Err(GHError::CommandError("server error".to_string())));
            }
            Step::Complete(o) => {
                match o {
                    ReconcileOutcome::Failed(GHError::CommandError(m)) => {
                        assert_eq!(m, "instance creation failed after every attempt")
                    }
                    other => panic!("unexpected {:?}", other),
                }
                break;
            }
        }
    }
    assert_eq!(creates, 3);
    assert_eq!(waits, vec![0, 10, 20]);
}

#[test]
fn refused_credential_stops_creation_at_once() {
    let mut r = ensure_healthy_codespaces(REPO, standard_slots());
    r.step(&ok(""));
    r.step(&Err(GHError::AuthError("HTTP 401".to_string())));
    let (wait, cmd) = expect_run(&r);
    assert_eq!(wait, 15);
    assert_eq!(cmd.args[7], "mawari-multi-node-2");
    r.step(&Err(GHError::AuthError("HTTP 401".to_string())));
    match expect_outcome(&r) {
        ReconcileOutcome::Failed(GHError::AuthError(m)) => assert_eq!(m, "HTTP 401"),
        other => panic!("unexpected {:?}", other),
    }
}

#[test]
fn partial_failure_keeps_the_ready_slot() {
    let mut r = ensure_healthy_codespaces(REPO, standard_slots());
    r.step(&ok(""));
    r.step(&ok("cs-one"));
    bring_up(&mut r, "cs-one", "PRIMARY");
    r.step(&Err(GHError::AuthError("HTTP 401".to_string())));
    match expect_outcome(&r) {
        ReconcileOutcome::Ready(ids) => assert_eq!(ids, vec![Some("cs-one".to_string()), None]),
        other => panic!("unexpected {:?}", other),
    }
}

#[test]
fn unreachable_instance_gives_up_after_eight_probes() {
    let slots = vec![standard_slots().remove(0)];
    let mut r = ensure_healthy_codespaces(REPO, slots);
    r.step(&ok(""));
    r.step(&ok("cs-one"));
    let mut probes = 0;
    while let Step::Run { wait_secs, command } = r.action() {
        assert_eq!(command.args[5], "echo 'ready'");
        if probes > 0 {
            assert_eq!(wait_secs, if probes % 2 == 1 { 15 } else { 20 });
        }
        probes += 1;
        if probes % 2 == 1 {
            r.step(&Err(GHError::Timeout("t".to_string())));
        } else {
            r.step(&ok("not yet"));
        }
    }
    assert_eq!(probes, 8);
    match expect_outcome(&r) {
        ReconcileOutcome::Failed(GHError::Timeout(m)) => {
            assert_eq!(m, "remote shell of the instance never became ready")
        }
        other => panic!("unexpected {:?}", other),
    }
}

#[test]
fn listing_failure_fails_reconciliation() {
    let mut r = ensure_healthy_codespaces(REPO, standard_slots());
    r.step(&Err(GHError::AuthError("Bad credentials".to_string())));
    assert!(matches!(expect_outcome(&r), ReconcileOutcome::Failed(GHError::AuthError(_))));
}

fn record(name: &str, repository: &str, state: &str, label: &str) -> Listed {
    Listed {
        name: name.to_string(),
        repository: repository.to_string(),
        state: state.to_string(),
        display_name: label.to_string(),
    }
}

#[test]
fn taken_listing_is_inspected_in_order() {
    let mut r = ensure_healthy_codespaces(REPO, standard_slots());
    r.take_listing(vec![
        record("cs-0", REPO, "Available", "unrelated-label"),
        record("cs-1", REPO, "Available", "mawari-multi-node-2"),
        record("cs-2", REPO, "Available", "mawari-multi-node-1"),
    ]);
    let (_, cmd) = expect_run(&r);
    assert_eq!(cmd.args[3], "cs-1");
    r.step(&ok("healthy"));
    let (_, cmd) = expect_run(&r);
    assert_eq!(cmd.args[3], "cs-2");
    r.step(&ok("healthy"));
    match expect_outcome(&r) {
        ReconcileOutcome::Ready(ids) => {
            assert_eq!(ids, vec![Some("cs-2".to_string()), Some("cs-1".to_string())])
        }
        other => panic!("unexpected {:?}", other),
    }
}

#[test]
fn duplicate_label_after_reuse_is_left_alone() {
    let mut r = ensure_healthy_codespaces(REPO, standard_slots());
    r.take_listing(vec![
        record("cs-a", REPO, "Available", "mawari-multi-node-1"),
        record("cs-dup", REPO, "Available", "mawari-multi-node-1"),
    ]);
    r.step(&ok("healthy"));
    let (_, cmd) = expect_run(&r);
    assert_eq!(cmd.args[1], "create");
    assert_eq!(cmd.args[7], "mawari-multi-node-2");
}

#[test]
fn garbage_listing_counts_as_empty() {
    let mut r = ensure_healthy_codespaces(REPO, standard_slots());
    r.step(&ok("garbage"));
    let (wait, cmd) = expect_run(&r);
    assert_eq!(wait, 0);
    assert_eq!(cmd.args[1], "create");
    assert_eq!(cmd.args[7], "mawari-multi-node-1");
}

#[test]
fn empty_listing_answer_creates_both_slots() {
    let mut r = ensure_healthy_codespaces(REPO, standard_slots());
    r.step(&ok(""));
    let (_, cmd) = expect_run(&r);
    assert_eq!(cmd.args[7], "mawari-multi-node-1");
    r.step(&ok("c1"));
    bring_up(&mut r, "c1", "PRIMARY");
    let (_, cmd) = expect_run(&r);
    assert_eq!(cmd.args[7], "mawari-multi-node-2");
    r.step(&ok("c2"));
    bring_up(&mut r, "c2", "SECONDARY");
    match expect_outcome(&r) {
        ReconcileOutcome::Ready(ids) => {
            assert_eq!(ids, vec![Some("c1".to_string()), Some("c2".to_string())])
        }
        other => panic!("unexpected {:?}", other),
    }
}

#[test]
fn listing_fields_of_wrong_type_read_empty() {
    let records = parse_listing("[{\"name\":\"cs-1\",\"repository\":\"flat\",\"state\":null}]");
    assert_eq!(records.len(), 1);
    assert_eq!(records[0].name, "cs-1");
    assert_eq!(records[0].repository, "");
    assert_eq!(records[0].state, "");
    assert_eq!(records[0].display_name, "");
    assert!(parse_listing("{\"name\":\"cs-1\"}").is_empty());
}
