//! Results of control-plane commands: how a finished process is classified,
//! and what the simple queries conclude from a classified result.

use vstd::prelude::*;
use crate::text::{contains, occurs_in, same_text, trim, trimmed};

verus! {

/// Why a control-plane command did not produce a usable result.
#[derive(Debug, Clone)]
pub enum GHError {
    /// The command failed for a reason that may pass (network, rate limit, unknown).
    CommandError(String),
    /// The credential was refused; retrying with it is pointless.
    AuthError(String),
    /// The command did not finish within its time limit.
    Timeout(String),
}

/// The mathematical content of a [`GHError`].
pub enum Fault {
    Command(Seq<char>),
    Auth(Seq<char>),
    Timeout(Seq<char>),
}

impl View for GHError {
    type V = Fault;

    open spec fn view(&self) -> Fault {
        match self {
            GHError::CommandError(m) => Fault::Command(m@),
            GHError::AuthError(m) => Fault::Auth(m@),
            GHError::Timeout(m) => Fault::Timeout(m@),
        }
    }
}

impl GHError {
    /// A copy of the error, with the same kind and message.
    pub fn duplicate(&self) -> (r: GHError)
        ensures
            r@ == self@,
    {
        match self {
            GHError::CommandError(m) => GHError::CommandError(m.clone()),
            GHError::AuthError(m) => GHError::AuthError(m.clone()),
            GHError::Timeout(m) => GHError::Timeout(m.clone()),
        }
    }

    /// The message carried by the error.
    pub fn message(&self) -> (r: String)
        ensures
            r@ == match self@ {
                Fault::Command(m) => m,
                Fault::Auth(m) => m,
                Fault::Timeout(m) => m,
            },
    {
        match self {
            GHError::CommandError(m) => m.clone(),
            GHError::AuthError(m) => m.clone(),
            GHError::Timeout(m) => m.clone(),
        }
    }
}

/// A classified command result seen through views.
pub open spec fn result_view(r: Result<String, GHError>) -> Result<Seq<char>, Fault> {
    match r {
        Ok(s) => Ok(s@),
        Err(e) => Err(e@),
    }
}

/// How a command process ended, before any interpretation.
#[derive(Debug, Clone)]
pub enum RawOutcome {
    /// The time limit passed first; the process was abandoned.
    TimedOut,
    /// The process could not be started.
    LaunchFailed(String),
    /// The process ran to its end.
    Exited { success: bool, stdout: String, stderr: String },
}

/// Message of the error given for a command that ran out of time.
pub open spec fn timeout_message() -> Seq<char> {
    "command did not finish within its time limit"@
}

/// Error text that shows the credential itself was refused.
pub open spec fn is_auth_failure(stderr: Seq<char>) -> bool {
    ||| occurs_in("Bad credentials"@, stderr)
    ||| occurs_in("authentication required"@, stderr)
    ||| occurs_in("HTTP 401"@, stderr)
    ||| occurs_in("HTTP 403"@, stderr)
}

/// A failed listing that only means nothing exists yet.
pub open spec fn is_empty_result(stdout: Seq<char>, stderr: Seq<char>) -> bool {
    occurs_in("no codespaces found"@, stderr) || (trimmed(stdout).len() == 0
        && trimmed(stderr).len() == 0)
}

/// Diagnostic text on the error stream that must not be taken for output.
pub open spec fn reports_problem(stderr: Seq<char>) -> bool {
    occurs_in("error"@, stderr) || occurs_in("failed"@, stderr)
}

/// The classification of a control-plane command's outcome.
pub open spec fn classified(raw: RawOutcome) -> Result<Seq<char>, Fault> {
    match raw {
        RawOutcome::TimedOut => Err(Fault::Timeout(timeout_message())),
        RawOutcome::LaunchFailed(m) => Err(Fault::Command(m@)),
        RawOutcome::Exited { success, stdout, stderr } => {
            if !success {
                if is_auth_failure(stderr@) {
                    Err(Fault::Auth(stderr@))
                } else if is_empty_result(stdout@, stderr@) {
                    Ok(Seq::empty())
                } else if stderr@.len() > 0 {
                    Err(Fault::Command(stderr@))
                } else {
                    Err(Fault::Command(stdout@))
                }
            } else if trimmed(stdout@).len() > 0 {
                Ok(trimmed(stdout@))
            } else if trimmed(stderr@).len() > 0 && !reports_problem(stderr@) {
                Ok(trimmed(stderr@))
            } else {
                Ok(trimmed(stdout@))
            }
        },
    }
}

/// The classification of a raw API query's outcome: any failure is an error
/// carrying the error text, success yields the trimmed output.
pub open spec fn api_classified(raw: RawOutcome) -> Result<Seq<char>, Fault> {
    match raw {
        RawOutcome::TimedOut => Err(Fault::Timeout(timeout_message())),
        RawOutcome::LaunchFailed(m) => Err(Fault::Command(m@)),
        RawOutcome::Exited { success, stdout, stderr } => {
            if success {
                Ok(trimmed(stdout@))
            } else {
                Err(Fault::Command(stderr@))
            }
        },
    }
}

fn timeout_error() -> (r: GHError)
    ensures
        r@ == Fault::Timeout(timeout_message()),
{
    GHError::Timeout(String::from_str("command did not finish within its time limit"))
}

fn auth_failure(stderr: &String) -> (r: bool)
    ensures
        r == is_auth_failure(stderr@),
{
    contains(stderr, "Bad credentials") || contains(stderr, "authentication required")
        || contains(stderr, "HTTP 401") || contains(stderr, "HTTP 403")
}

/// Classifies how a control-plane command ended. Authentication failures,
/// "nothing exists yet" results and other failures are told apart by the
/// error text; a successful command yields its trimmed output, taken from the
/// error stream when the command wrote its result there.
pub fn classify_outcome(raw: RawOutcome) -> (r: Result<String, GHError>)
    ensures
        result_view(r) == classified(raw),
{
    match raw {
        RawOutcome::TimedOut => Err(timeout_error()),
        RawOutcome::LaunchFailed(m) => Err(GHError::CommandError(m)),
        RawOutcome::Exited { success, stdout, stderr } => {
            let out = trim(&stdout);
            let err = trim(&stderr);
            if !success {
                if auth_failure(&stderr) {
                    Err(GHError::AuthError(stderr))
                } else if contains(&stderr, "no codespaces found") || (out.unicode_len() == 0
                    && err.unicode_len() == 0) {
                    Ok(String::new())
                } else if stderr.unicode_len() > 0 {
                    Err(GHError::CommandError(stderr))
                } else {
                    Err(GHError::CommandError(stdout))
                }
            } else if out.unicode_len() > 0 {
                Ok(out)
            } else if err.unicode_len() > 0 && !(contains(&stderr, "error") || contains(
                &stderr,
                "failed",
            )) {
                Ok(err)
            } else {
                Ok(out)
            }
        },
    }
}

/// Classifies how a raw API query ended.
pub fn classify_api_outcome(raw: RawOutcome) -> (r: Result<String, GHError>)
    ensures
        result_view(r) == api_classified(raw),
{
    match raw {
        RawOutcome::TimedOut => Err(timeout_error()),
        RawOutcome::LaunchFailed(m) => Err(GHError::CommandError(m)),
        RawOutcome::Exited { success, stdout, stderr } => {
            if success {
                Ok(trim(&stdout))
            } else {
                Err(GHError::CommandError(stderr))
            }
        },
    }
}

/// The login that the identity query resolved the credential to: the
/// classified outcome of that query.
pub fn get_username(raw: RawOutcome) -> (r: Result<String, GHError>)
    ensures
        result_view(r) == classified(raw),
{
    classify_outcome(raw)
}

/// Whether an instance's reported state shows it running and available. A
/// query that ran out of time counts as "not available"; other errors are
/// passed on.
pub fn verify_codespace(state: Result<String, GHError>) -> (r: Result<bool, GHError>)
    ensures
        match state {
            Ok(s) => r == Ok::<bool, GHError>(s@ == "Available"@),
            Err(GHError::Timeout(_)) => r == Ok::<bool, GHError>(false),
            Err(e) => r == Err::<bool, GHError>(e),
        },
{
    match state {
        Ok(s) => Ok(same_text(&s, "Available")),
        Err(GHError::Timeout(_)) => Ok(false),
        Err(e) => Err(e),
    }
}

/// A health probe's output is positive when it reports the instance healthy
/// and does not report it unhealthy.
pub open spec fn probe_positive(out: Seq<char>) -> bool {
    occurs_in("healthy"@, out) && !occurs_in("unhealthy"@, out)
}

/// Whether a classified health-probe result is positive; any error is negative.
pub fn health_check(probe: &Result<String, GHError>) -> (r: bool)
    ensures
        r == (probe is Ok && probe_positive(probe->Ok_0@)),
{
    match probe {
        Ok(out) => contains(out, "healthy") && !contains(out, "unhealthy"),
        Err(_) => false,
    }
}

/// A reachability probe succeeded: its output holds the word it echoes.
pub open spec fn shell_ready(r: Result<Seq<char>, Fault>) -> bool {
    r is Ok && occurs_in("ready"@, r->Ok_0)
}

/// Whether a classified reachability-probe result shows the remote shell ready.
pub fn is_shell_ready(probe: &Result<String, GHError>) -> (r: bool)
    ensures
        r == shell_ready(result_view(*probe)),
{
    match probe {
        Ok(out) => contains(out, "ready"),
        Err(_) => false,
    }
}

} // verus!
