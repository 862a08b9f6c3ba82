use orchestrator::command::{billing_command, startup_script_path, username_command};
use orchestrator::gh::{classify_api_outcome, classify_outcome, health_check, is_shell_ready};
use orchestrator::text::{contains, first_line_of, same_text};
use orchestrator::{get_username, verify_codespace, GHError, RawOutcome};

fn exited(success: bool, stdout: &str, stderr: &str) -> RawOutcome {
    RawOutcome::Exited { success, stdout: stdout.to_string(), stderr: stderr.to_string() }
}

#[test]
fn success_output_is_trimmed() {
    let r = classify_outcome(exited(true, "  octocat \n", ""));
    assert_eq!(r.unwrap(), "octocat");
}

#[test]
fn success_output_falls_back_to_error_stream() {
    let r = classify_outcome(exited(true, "   ", " cs-abc123\n"));
    assert_eq!(r.unwrap(), "cs-abc123");
}

#[test]
fn error_stream_with_error_word_is_not_output() {
    let r = classify_outcome(exited(true, "", "some error happened"));
    assert_eq!(r.unwrap(), "");
}

#[test]
fn bad_credentials_is_auth_error() {
    let r = classify_outcome(exited(false, "", "HTTP 401: Bad credentials"));
    match r {
        Err(GHError::AuthError(m)) => assert_eq!(m, "HTTP 401: Bad credentials"),
        other => panic!("unexpected {:?}", other),
    }
}

#[test]
fn forbidden_is_auth_error() {
    let r = classify_outcome(exited(false, "", "HTTP 403: Forbidden"));
    assert!(matches!(r, Err(GHError::AuthError(_))));
}

#[test]
fn no_codespaces_is_empty_result() {
    let r = classify_outcome(exited(false, "", "no codespaces found"));
    assert_eq!(r.unwrap(), "");
}

#[test]
fn silent_failure_is_empty_result() {
    let r = classify_outcome(exited(false, " \n", ""));
    assert_eq!(r.unwrap(), "");
}

#[test]
fn other_failure_is_command_error() {
    let r = classify_outcome(exited(false, "", "rate limit exceeded"));
    match r {
        Err(GHError::CommandError(m)) => assert_eq!(m, "rate limit exceeded"),
        other => panic!("unexpected {:?}", other),
    }
}

#[test]
fn failure_without_stderr_reports_stdout() {
    let r = classify_outcome(exited(false, "partial output", ""));
    match r {
        Err(GHError::CommandError(m)) => assert_eq!(m, "partial output"),
        other => panic!("unexpected {:?}", other),
    }
}

#[test]
fn timed_out_command_is_timeout() {
    let r = classify_outcome(RawOutcome::TimedOut);
    match r {
        Err(GHError::Timeout(m)) => assert_eq!(m, "command did not finish within its time limit"),
        other => panic!("unexpected {:?}", other),
    }
}

#[test]
fn launch_failure_is_command_error() {
    let r = classify_outcome(RawOutcome::LaunchFailed("gh not found".to_string()));
    assert!(matches!(r, Err(GHError::CommandError(m)) if m == "gh not found"));
}

#[test]
fn api_failure_carries_stderr() {
    let r = classify_api_outcome(exited(false, "", "connection reset"));
    assert!(matches!(r, Err(GHError::CommandError(m)) if m == "connection reset"));
    let ok = classify_api_outcome(exited(true, " {\"usageItems\":[]}\n", ""));
    assert_eq!(ok.unwrap(), "{\"usageItems\":[]}");
}

#[test]
fn username_is_classified_output() {
    assert_eq!(get_username(exited(true, "octocat\n", "")).unwrap(), "octocat");
    assert!(get_username(exited(false, "", "Bad credentials")).is_err());
}

#[test]
fn verify_codespace_reads_state() {
    assert!(matches!(verify_codespace(Ok("Available".to_string())), Ok(true)));
    assert!(matches!(verify_codespace(Ok("Shutdown".to_string())), Ok(false)));
    assert!(matches!(verify_codespace(Err(GHError::Timeout("t".to_string()))), Ok(false)));
    assert!(matches!(
        verify_codespace(Err(GHError::AuthError("a".to_string()))),
        Err(GHError::AuthError(_))
    ));
}

#[test]
fn health_probe_needs_healthy_and_not_unhealthy() {
    assert!(health_check(&Ok("healthy".to_string())));
    assert!(!health_check(&Ok("unhealthy".to_string())));
    assert!(!health_check(&Ok("".to_string())));
    assert!(!health_check(&Err(GHError::Timeout("t".to_string()))));
}

#[test]
fn shell_ready_probe() {
    assert!(is_shell_ready(&Ok("ready".to_string())));
    assert!(!is_shell_ready(&Ok("".to_string())));
    assert!(!is_shell_ready(&Err(GHError::CommandError("x".to_string()))));
}

#[test]
fn text_helpers() {
    assert!(contains("Codespaces compute 4-core", "compute 4-core"));
    assert!(!contains("compute 32-core", "compute 2-core"));
    assert!(contains("abc", ""));
    assert!(!contains("ab", "abc"));
    assert_eq!(first_line_of("one\ntwo"), "one");
    assert_eq!(first_line_of("single"), "single");
    assert_eq!(first_line_of(""), "");
    assert!(same_text("a", "a"));
    assert!(!same_text("a", "b"));
}

#[test]
fn command_words() {
    let u = username_command();
    assert_eq!(u.args, vec!["api", "user", "--jq", ".login"]);
    assert_eq!(u.timeout_secs, 90);
    let b = billing_command("octocat");
    assert_eq!(b.args[1], "/users/octocat/settings/billing/usage");
    assert_eq!(b.timeout_secs, 30);
}

#[test]
fn script_path_uses_repository_name() {
    assert_eq!(startup_script_path("owner/my-repo"), "/workspaces/my-repo/mawari/auto-start.sh");
    assert_eq!(startup_script_path("plain"), "/workspaces/plain/mawari/auto-start.sh");
}

#[test]
fn unicode_whitespace_is_trimmed() {
    let r = classify_outcome(exited(true, "\u{3000}\u{a0}Available\u{2028}\n", ""));
    assert_eq!(r.unwrap(), "Available");
}
