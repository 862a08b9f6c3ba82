//! Bringing an instance's workload up: wait until its remote shell answers,
//! then start the startup script in the background. Used after creation and,
//! unchanged, as the periodic keep-alive.

use vstd::prelude::*;
use crate::command::{launch_command, launch_text, ready_command, remote_words, Planned, Step};
use crate::gh::{is_shell_ready, result_view, shell_ready, Fault, GHError};

verus! {

/// Reachability probes made before giving up on an instance's remote shell.
pub const SHELL_ATTEMPTS: u64 = 8;

/// Seconds before the next reachability probe after one that ran out of time.
pub const SHELL_TIMEOUT_RETRY_SECS: u64 = 15;

/// Seconds before the next reachability probe after any other negative one.
pub const SHELL_RETRY_SECS: u64 = 20;

/// What follows a reachability probe.
#[derive(Debug, Clone, Copy)]
pub enum ShellNext {
    Ready,
    Retry { wait_secs: u64 },
    GiveUp,
}

/// What follows the reachability probe numbered `attempt` (from 1) with result `ev`.
pub open spec fn shell_next(attempt: u64, ev: Result<Seq<char>, Fault>) -> ShellNext {
    if shell_ready(ev) {
        ShellNext::Ready
    } else if attempt < SHELL_ATTEMPTS {
        ShellNext::Retry {
            wait_secs: if ev matches Err(Fault::Timeout(_)) {
                SHELL_TIMEOUT_RETRY_SECS
            } else {
                SHELL_RETRY_SECS
            },
        }
    } else {
        ShellNext::GiveUp
    }
}

/// Decides what follows a reachability probe.
pub fn after_shell_probe(attempt: u64, ev: &Result<String, GHError>) -> (r: ShellNext)
    ensures
        r == shell_next(attempt, result_view(*ev)),
{
    if is_shell_ready(ev) {
        ShellNext::Ready
    } else if attempt < SHELL_ATTEMPTS {
        let wait_secs: u64 = match ev {
            Err(GHError::Timeout(_)) => SHELL_TIMEOUT_RETRY_SECS,
            _ => SHELL_RETRY_SECS,
        };
        ShellNext::Retry { wait_secs }
    } else {
        ShellNext::GiveUp
    }
}

/// Message of the error given when an instance's remote shell never answered.
pub open spec fn unreachable_message() -> Seq<char> {
    "remote shell of the instance never became ready"@
}

pub fn unreachable_error() -> (r: GHError)
    ensures
        r@ == Fault::Timeout(unreachable_message()),
{
    GHError::Timeout(String::from_str("remote shell of the instance never became ready"))
}

/// Where a startup run stands.
#[derive(Debug, Clone, Copy, PartialEq, Eq)]
pub enum StartupStage {
    AwaitingShell { attempt: u64 },
    Launching,
    Finished,
}

/// A startup run of one instance.
pub struct StartupRun {
    name: String,
    script: String,
    mode: String,
    stage: StartupStage,
    wait: u64,
    error: Option<GHError>,
}

/// The mathematical content of a [`StartupRun`].
pub struct StartupView {
    pub name: Seq<char>,
    pub script: Seq<char>,
    pub mode: Seq<char>,
    pub stage: StartupStage,
    pub wait: u64,
    pub error: Option<Fault>,
}

pub open spec fn fault_of(e: Option<GHError>) -> Option<Fault> {
    match e {
        Some(x) => Some(x@),
        None => None,
    }
}

impl View for StartupRun {
    type V = StartupView;

    closed spec fn view(&self) -> StartupView {
        StartupView {
            name: self.name@,
            script: self.script@,
            mode: self.mode@,
            stage: self.stage,
            wait: self.wait,
            error: fault_of(self.error),
        }
    }
}

impl StartupView {
    /// Attempt numbers stay within their bound.
    pub open spec fn wf(self) -> bool {
        self.stage matches StartupStage::AwaitingShell { attempt } ==> 1 <= attempt
            <= SHELL_ATTEMPTS
    }

    /// The run after the result `ev` of its current command.
    pub open spec fn next(self, ev: Result<Seq<char>, Fault>) -> StartupView {
        match self.stage {
            StartupStage::AwaitingShell { attempt } => match shell_next(attempt, ev) {
                ShellNext::Ready => StartupView { stage: StartupStage::Launching, wait: 0, ..self },
                ShellNext::Retry { wait_secs } => StartupView {
                    stage: StartupStage::AwaitingShell { attempt: (attempt + 1) as u64 },
                    wait: wait_secs,
                    ..self
                },
                ShellNext::GiveUp => StartupView {
                    stage: StartupStage::Finished,
                    wait: 0,
                    error: Some(Fault::Timeout(unreachable_message())),
                    ..self
                },
            },
            StartupStage::Launching => StartupView {
                stage: StartupStage::Finished,
                wait: 0,
                ..self
            },
            StartupStage::Finished => self,
        }
    }

    /// The command the run plans next; none once it has finished.
    pub open spec fn planned(self) -> Option<Planned> {
        match self.stage {
            StartupStage::AwaitingShell { .. } => Some(
                Planned {
                    wait_secs: self.wait,
                    words: remote_words(self.name, "echo 'ready'"@),
                    timeout_secs: 20,
                },
            ),
            StartupStage::Launching => Some(
                Planned {
                    wait_secs: self.wait,
                    words: remote_words(self.name, launch_text(self.script, self.mode)),
                    timeout_secs: 30,
                },
            ),
            StartupStage::Finished => None,
        }
    }
}

/// Starts a startup run of the instance `name`: probe its remote shell until
/// it answers (at most [`SHELL_ATTEMPTS`] probes), then start the script at
/// `script_path` in the background with `SETUP_MODE` set to `setup_mode`. The
/// run fails only when the shell never answers; a failure to start the script
/// is left for the next health check to find.
pub fn wait_and_run_startup_script(name: &str, script_path: &str, setup_mode: &str) -> (r:
    StartupRun)
    ensures
        r@.name == name@,
        r@.script == script_path@,
        r@.mode == setup_mode@,
        r@.stage == (StartupStage::AwaitingShell { attempt: 1 }),
        r@.wait == 0,
        r@.error is None,
        r@.wf(),
{
    StartupRun {
        name: String::from_str(name),
        script: String::from_str(script_path),
        mode: String::from_str(setup_mode),
        stage: StartupStage::AwaitingShell { attempt: 1 },
        wait: 0,
        error: None,
    }
}

impl StartupRun {
    /// What the run asks for next.
    pub fn action(&self) -> (r: Step<Result<(), GHError>>)
        ensures
            r.planned() == self@.planned(),
            r matches Step::Complete(res) ==> match self@.error {
                Some(e) => res is Err && res->Err_0@ == e,
                None => res is Ok,
            },
    {
        match self.stage {
            StartupStage::AwaitingShell { .. } => Step::Run {
                wait_secs: self.wait,
                command: ready_command(self.name.as_str()),
            },
            StartupStage::Launching => Step::Run {
                wait_secs: self.wait,
                command: launch_command(self.name.as_str(), self.script.as_str(), self.mode.as_str()),
            },
            StartupStage::Finished => match &self.error {
                Some(e) => Step::Complete(Err(e.duplicate())),
                None => Step::Complete(Ok(())),
            },
        }
    }

    /// Takes the classified result of the command last planned.
    pub fn step(&mut self, ev: &Result<String, GHError>)
        ensures
            final(self)@ == old(self)@.next(result_view(*ev)),
            old(self)@.wf() ==> final(self)@.wf(),
    {
        match self.stage {
            StartupStage::AwaitingShell { attempt } => match after_shell_probe(attempt, ev) {
                ShellNext::Ready => {
                    self.stage = StartupStage::Launching;
                    self.wait = 0;
                },
                ShellNext::Retry { wait_secs } => {
                    self.stage = StartupStage::AwaitingShell { attempt: attempt + 1 };
                    self.wait = wait_secs;
                },
                ShellNext::GiveUp => {
                    self.stage = StartupStage::Finished;
                    self.wait = 0;
                    self.error = Some(unreachable_error());
                },
            },
            StartupStage::Launching => {
                self.stage = StartupStage::Finished;
                self.wait = 0;
            },
            StartupStage::Finished => {},
        }
    }
}

} // verus!
