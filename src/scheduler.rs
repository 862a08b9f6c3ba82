//! The main control loop's decisions: which credential is active, what
//! follows each phase of a cycle, and what is checkpointed.
//!
//! A cycle runs: validate the active credential, gate on its quota,
//! reconcile the fleet, run it with keep-alive rounds, rotate. The driver
//! performs each phase and reports its result; the scheduler answers with a
//! [`Directive`] and keeps the durable [`State`].

use vstd::prelude::*;
use crate::quota::BillingInfo;
use crate::reconcile::{opt_text, ReconcileOutcome};
use crate::startup::{wait_and_run_startup_script, StartupRun, StartupView, StartupStage};

verus! {

/// Consecutive failures after which the loop cools down.
pub const MAX_CONSECUTIVE_FAILURES: u64 = 3;

/// Cool-down after repeated validation failures, in seconds.
pub const FAILURE_COOLDOWN_SECS: u64 = 600;

/// Cool-down after repeated reconciliation failures, in seconds.
pub const DEPLOY_FAILURE_COOLDOWN_SECS: u64 = 900;

/// Wait before reconciling again after a single failure, in seconds.
pub const DEPLOY_RETRY_SECS: u64 = 300;

/// Pause after a rotation forced by a failed phase, in seconds.
pub const ROTATION_PAUSE_SECS: u64 = 5;

/// Pause between a completed cycle and the next, in seconds.
pub const CYCLE_PAUSE_SECS: u64 = 30;

/// The list of credentials, loaded once at start.
#[derive(Debug, Clone)]
pub struct Config {
    pub tokens: Vec<String>,
}

impl Config {
    /// A configuration is usable when it holds at least one credential.
    pub fn is_usable(&self) -> (r: bool)
        ensures
            r == (self.tokens@.len() > 0),
    {
        self.tokens.len() > 0
    }
}

/// The durable record: the active credential and the identity of each
/// slot's instance (empty when unknown). It is a hint for reuse; the live
/// listing stays the source of truth.
#[derive(Debug, Clone)]
pub struct State {
    pub current_account_index: usize,
    pub mawari_node_1_name: String,
    pub mawari_node_2_name: String,
}

/// The mathematical content of a [`State`].
pub struct StateView {
    pub index: int,
    pub node_1: Seq<char>,
    pub node_2: Seq<char>,
}

impl View for State {
    type V = StateView;

    open spec fn view(&self) -> StateView {
        StateView {
            index: self.current_account_index as int,
            node_1: self.mawari_node_1_name@,
            node_2: self.mawari_node_2_name@,
        }
    }
}

impl Default for State {
    /// The state of a first run: the first credential, no instances known.
    fn default() -> (r: State)
        ensures
            r@ == (StateView { index: 0, node_1: Seq::empty(), node_2: Seq::empty() }),
    {
        State {
            current_account_index: 0,
            mawari_node_1_name: String::new(),
            mawari_node_2_name: String::new(),
        }
    }
}

/// What the driver does after a phase.
#[derive(Debug, Clone, Copy, PartialEq, Eq)]
pub enum Directive {
    /// Go on with the next phase of this cycle; save the state first when
    /// `checkpoint` is set.
    Proceed { checkpoint: bool },
    /// Abandon this cycle: save the state when `checkpoint` is set, wait
    /// `wait_secs` seconds, and start the next cycle with the active credential.
    Restart { checkpoint: bool, wait_secs: u64 },
}

/// The index that follows `i` in a pool of `n` credentials.
pub open spec fn rotated(i: int, n: int) -> int {
    if i + 1 < n {
        i + 1
    } else {
        0
    }
}

/// The index reached from `i` after `k` rotations in a pool of `n`.
pub open spec fn after_rotations(i: int, n: int, k: nat) -> int
    decreases k,
{
    if k == 0 {
        i
    } else {
        rotated(after_rotations(i, n, (k - 1) as nat), n)
    }
}

/// The scheduler's decisions across cycles.
pub struct Scheduler {
    state: State,
    pool_size: usize,
    failures: u64,
}

/// The mathematical content of a [`Scheduler`].
pub struct SchedulerView {
    pub state: StateView,
    pub pool_size: int,
    /// Consecutive failures of validation or reconciliation.
    pub failures: int,
}

impl View for Scheduler {
    type V = SchedulerView;

    closed spec fn view(&self) -> SchedulerView {
        SchedulerView {
            state: self.state@,
            pool_size: self.pool_size as int,
            failures: self.failures as int,
        }
    }
}

/// The scheduler rebuilt from a loaded state: an index outside the pool
/// falls back to the first credential; the slot identities are kept.
pub open spec fn restored(pool_size: int, loaded: StateView) -> SchedulerView {
    SchedulerView {
        state: if 0 <= loaded.index < pool_size {
            loaded
        } else {
            StateView { index: 0, ..loaded }
        },
        pool_size,
        failures: 0,
    }
}

/// The state after a rotation: the next credential, no instances known.
pub open spec fn rotation_of(s: SchedulerView) -> StateView {
    StateView {
        index: rotated(s.state.index, s.pool_size),
        node_1: Seq::empty(),
        node_2: Seq::empty(),
    }
}

/// Failures counted after one more, and the cool-down it brings: the count
/// starts over once it reaches the limit.
pub open spec fn failures_after(f: int) -> int {
    if f + 1 >= MAX_CONSECUTIVE_FAILURES {
        0
    } else {
        f + 1
    }
}

/// The identity recorded for slot `s` from a reconciliation's result.
pub open spec fn slot_name(ids: Seq<Option<Seq<char>>>, s: int) -> Seq<char> {
    if 0 <= s < ids.len() && ids[s] is Some {
        ids[s]->Some_0
    } else {
        Seq::empty()
    }
}

impl Scheduler {
    #[verifier::type_invariant]
    spec fn inv(&self) -> bool {
        &&& 0 < self.pool_size
        &&& self.state.current_account_index < self.pool_size
        &&& self.failures < MAX_CONSECUTIVE_FAILURES
    }

    /// Rebuilds the scheduler for a pool of `pool_size` credentials from the
    /// state loaded at start.
    pub fn new(pool_size: usize, loaded: State) -> (r: Scheduler)
        requires
            pool_size > 0,
        ensures
            r@ == restored(pool_size as int, loaded@),
    {
        let mut state = loaded;
        if state.current_account_index >= pool_size {
            state.current_account_index = 0;
        }
        Scheduler { state, pool_size, failures: 0 }
    }

    /// The index of the active credential, always inside the pool.
    pub fn active_index(&self) -> (r: usize)
        ensures
            r == self@.state.index,
            r < self@.pool_size,
    {
        proof {
            use_type_invariant(self);
        }
        self.state.current_account_index
    }

    /// The durable state to checkpoint.
    pub fn state(&self) -> (r: &State)
        ensures
            r@ == self@.state,
    {
        &self.state
    }

    /// Consecutive failures counted so far.
    pub fn failures(&self) -> (r: u64)
        ensures
            r == self@.failures,
    {
        self.failures
    }

    /// Advances to the next credential, wrapping at the end of the pool, and
    /// forgets the slot identities: instances of one account say nothing of
    /// another's. Returns the new index.
    pub fn switch_to_next_token(&mut self) -> (r: usize)
        ensures
            final(self)@ == (SchedulerView { state: rotation_of(old(self)@), ..old(self)@ }),
            r == final(self)@.state.index,
    {
        proof {
            use_type_invariant(&*self);
        }
        let i = self.state.current_account_index;
        let next: usize = if i + 1 < self.pool_size {
            i + 1
        } else {
            0
        };
        self.state.current_account_index = next;
        self.state.mawari_node_1_name = String::new();
        self.state.mawari_node_2_name = String::new();
        next
    }

    fn count_failure(&mut self) -> (cooled: bool)
        ensures
            final(self)@ == (SchedulerView {
                failures: failures_after(old(self)@.failures),
                ..old(self)@
            }),
            cooled == (old(self)@.failures + 1 >= MAX_CONSECUTIVE_FAILURES),
    {
        proof {
            use_type_invariant(&*self);
        }
        if self.failures + 1 >= MAX_CONSECUTIVE_FAILURES {
            self.failures = 0;
            true
        } else {
            self.failures = self.failures + 1;
            false
        }
    }

    /// After validating the active credential. Success clears the failure
    /// count. A failure is counted, costs a cool-down when the count reaches
    /// its limit, and rotates to the next credential.
    pub fn after_validation(&mut self, valid: bool) -> (r: Directive)
        ensures
            valid ==> final(self)@ == (SchedulerView { failures: 0, ..old(self)@ }) && r == (
            Directive::Proceed { checkpoint: false }),
            !valid ==> final(self)@ == (SchedulerView {
                state: rotation_of(old(self)@),
                failures: failures_after(old(self)@.failures),
                ..old(self)@
            }) && r == (Directive::Restart {
                checkpoint: true,
                wait_secs: if old(self)@.failures + 1 >= MAX_CONSECUTIVE_FAILURES {
                    (FAILURE_COOLDOWN_SECS + ROTATION_PAUSE_SECS) as u64
                } else {
                    ROTATION_PAUSE_SECS
                },
            }),
    {
        proof {
            use_type_invariant(&*self);
        }
        if valid {
            self.failures = 0;
            Directive::Proceed { checkpoint: false }
        } else {
            let cooled = self.count_failure();
            self.switch_to_next_token();
            let wait_secs: u64 = if cooled {
                FAILURE_COOLDOWN_SECS + ROTATION_PAUSE_SECS
            } else {
                ROTATION_PAUSE_SECS
            };
            Directive::Restart { checkpoint: true, wait_secs }
        }
    }

    /// After the quota gate. A snapshot that does not admit a run rotates to
    /// the next credential at once, without counting a failure.
    pub fn after_quota(&mut self, info: &BillingInfo) -> (r: Directive)
        ensures
            info.is_quota_ok ==> final(self)@ == old(self)@ && r == (Directive::Proceed {
                checkpoint: false,
            }),
            !info.is_quota_ok ==> final(self)@ == (SchedulerView {
                state: rotation_of(old(self)@),
                ..old(self)@
            }) && r == (Directive::Restart { checkpoint: true, wait_secs: ROTATION_PAUSE_SECS }),
    {
        if info.is_quota_ok {
            Directive::Proceed { checkpoint: false }
        } else {
            self.switch_to_next_token();
            Directive::Restart { checkpoint: true, wait_secs: ROTATION_PAUSE_SECS }
        }
    }

    /// After reconciliation. When some slot is ready the failure count is
    /// cleared and the fleet's identities are recorded for a checkpoint (an
    /// empty name for a slot left without an instance). A failed
    /// reconciliation is counted and retried with the same credential after a
    /// wait, a longer one when the count reaches its limit.
    pub fn after_reconcile(&mut self, outcome: &ReconcileOutcome) -> (r: Directive)
        ensures
            match outcome {
                ReconcileOutcome::Ready(ids) => {
                    let names = ids@.map_values(|o: Option<String>| opt_text(o));
                    &&& final(self)@ == (SchedulerView {
                        state: StateView {
                            index: old(self)@.state.index,
                            node_1: slot_name(names, 0),
                            node_2: slot_name(names, 1),
                        },
                        failures: 0,
                        ..old(self)@
                    })
                    &&& r == (Directive::Proceed { checkpoint: true })
                },
                ReconcileOutcome::Failed(_) => {
                    &&& final(self)@ == (SchedulerView {
                        failures: failures_after(old(self)@.failures),
                        ..old(self)@
                    })
                    &&& r == (Directive::Restart {
                        checkpoint: false,
                        wait_secs: if old(self)@.failures + 1 >= MAX_CONSECUTIVE_FAILURES {
                            DEPLOY_FAILURE_COOLDOWN_SECS
                        } else {
                            DEPLOY_RETRY_SECS
                        },
                    })
                },
            },
    {
        proof {
            use_type_invariant(&*self);
        }
        match outcome {
            ReconcileOutcome::Ready(ids) => {
                self.failures = 0;
                self.state.mawari_node_1_name = name_at(ids, 0);
                self.state.mawari_node_2_name = name_at(ids, 1);
                Directive::Proceed { checkpoint: true }
            },
            ReconcileOutcome::Failed(_) => {
                let cooled = self.count_failure();
                let wait_secs: u64 = if cooled {
                    DEPLOY_FAILURE_COOLDOWN_SECS
                } else {
                    DEPLOY_RETRY_SECS
                };
                Directive::Restart { checkpoint: false, wait_secs }
            },
        }
    }

    /// After the run: rotate to the next credential and pause before the
    /// next cycle.
    pub fn after_run(&mut self) -> (r: Directive)
        ensures
            final(self)@ == (SchedulerView { state: rotation_of(old(self)@), ..old(self)@ }),
            r == (Directive::Restart { checkpoint: true, wait_secs: CYCLE_PAUSE_SECS }),
    {
        self.switch_to_next_token();
        Directive::Restart { checkpoint: true, wait_secs: CYCLE_PAUSE_SECS }
    }

    /// The keep-alive round: a startup run, in the slot's mode, for each slot
    /// whose instance is known. The scheduler is only read.
    pub fn restart_nodes(&self, script_path: &str) -> (r: Vec<StartupRun>)
        ensures
            r@.map_values(|x: StartupRun| x@) == keep_alive_round(self@.state, script_path@),
    {
        let mut runs: Vec<StartupRun> = Vec::new();
        if self.state.mawari_node_1_name.unicode_len() > 0 {
            runs.push(
                wait_and_run_startup_script(
                    self.state.mawari_node_1_name.as_str(),
                    script_path,
                    "PRIMARY",
                ),
            );
        }
        if self.state.mawari_node_2_name.unicode_len() > 0 {
            runs.push(
                wait_and_run_startup_script(
                    self.state.mawari_node_2_name.as_str(),
                    script_path,
                    "SECONDARY",
                ),
            );
        }
        assert(runs@.map_values(|x: StartupRun| x@) =~= keep_alive_round(self@.state, script_path@));
        runs
    }
}

/// A fresh startup run of `name`.
pub open spec fn fresh_run(name: Seq<char>, script: Seq<char>, mode: Seq<char>) -> StartupView {
    StartupView {
        name,
        script,
        mode,
        stage: StartupStage::AwaitingShell { attempt: 1 },
        wait: 0,
        error: None,
    }
}

/// The startup runs of a keep-alive round for the state `st`.
pub open spec fn keep_alive_round(st: StateView, script: Seq<char>) -> Seq<StartupView> {
    let first = if st.node_1.len() > 0 {
        seq![fresh_run(st.node_1, script, "PRIMARY"@)]
    } else {
        Seq::empty()
    };
    if st.node_2.len() > 0 {
        first.push(fresh_run(st.node_2, script, "SECONDARY"@))
    } else {
        first
    }
}

fn name_at(ids: &Vec<Option<String>>, s: usize) -> (r: String)
    ensures
        r@ == slot_name(ids@.map_values(|o: Option<String>| opt_text(o)), s as int),
{
    if s < ids.len() {
        match &ids[s] {
            Some(name) => name.clone(),
            None => String::new(),
        }
    } else {
        String::new()
    }
}


/// Some rotation among the first `n` from `i` selects `j`.
pub open spec fn selected_within(i: int, n: int, j: int) -> bool {
    exists|k: nat| 1 <= k <= n && #[trigger] after_rotations(i, n, k) == j
}

proof fn lemma_after_rotations_closed(i: int, n: int, k: nat)
    requires
        0 < n,
        0 <= i < n,
        k <= n,
    ensures
        after_rotations(i, n, k) == if i + k < n {
            i + k
        } else {
            i + k - n
        },
    decreases k,
{
    if k > 0 {
        lemma_after_rotations_closed(i, n, (k - 1) as nat);
    }
}

/// Round robin: from any index of a pool of `n` credentials, the next `n`
/// rotations select every index exactly once, each the successor of the one
/// before (wrapping from `n - 1` to `0`), and the last brings the pool back to
/// where it started.
pub proof fn lemma_round_robin(i: int, n: int)
    requires
        0 < n,
        0 <= i < n,
    ensures
        after_rotations(i, n, n as nat) == i,
        forall|k: nat| 1 <= k <= n ==> 0 <= #[trigger] after_rotations(i, n, k) < n,
        forall|k: nat|
            #![trigger after_rotations(i, n, k)]
            k < n ==> after_rotations(i, n, k + 1) == if after_rotations(i, n, k) == n - 1 {
                0
            } else {
                after_rotations(i, n, k) + 1
            },
        forall|j: int| 0 <= j < n ==> #[trigger] selected_within(i, n, j),
        forall|k1: nat, k2: nat|
            1 <= k1 <= n && 1 <= k2 <= n && #[trigger] after_rotations(i, n, k1)
                == #[trigger] after_rotations(i, n, k2) ==> k1 == k2,
{
    lemma_after_rotations_closed(i, n, n as nat);
    assert forall|k: nat| 1 <= k <= n implies 0 <= #[trigger] after_rotations(i, n, k) < n by {
        lemma_after_rotations_closed(i, n, k);
    }
    assert forall|k: nat| #![trigger after_rotations(i, n, k)] k < n implies after_rotations(
        i,
        n,
        k + 1,
    ) == if after_rotations(i, n, k) == n - 1 {
        0
    } else {
        after_rotations(i, n, k) + 1
    } by {
        lemma_after_rotations_closed(i, n, k);
        lemma_after_rotations_closed(i, n, k + 1);
    }
    assert forall|j: int| 0 <= j < n implies #[trigger] selected_within(i, n, j) by {
        let k: nat = if j > i {
            (j - i) as nat
        } else {
            (j - i + n) as nat
        };
        lemma_after_rotations_closed(i, n, k);
        assert(after_rotations(i, n, k) == j);
    }
    assert forall|k1: nat, k2: nat|
        1 <= k1 <= n && 1 <= k2 <= n && #[trigger] after_rotations(i, n, k1)
            == #[trigger] after_rotations(i, n, k2) implies k1 == k2 by {
        lemma_after_rotations_closed(i, n, k1);
        lemma_after_rotations_closed(i, n, k2);
    }
}

/// Restart after a checkpoint: a scheduler rebuilt from the state it saved
/// selects the same credential and holds the same slot identities.
pub proof fn lemma_restart_restores(s: SchedulerView)
    requires
        0 < s.pool_size,
        0 <= s.state.index < s.pool_size,
    ensures
        restored(s.pool_size, s.state) == (SchedulerView { failures: 0, ..s }),
{
}

/// Keep-alive changes no identity: every run of a keep-alive round addresses
/// an identity the state already holds, in its slot's mode, and no step of a
/// startup run changes the instance it addresses, its script or its mode.
pub proof fn lemma_keep_alive_idempotent(
    st: StateView,
    script: Seq<char>,
    v: StartupView,
    ev: Result<Seq<char>, crate::gh::Fault>,
)
    ensures
        forall|k: int|
            0 <= k < keep_alive_round(st, script).len() ==> {
                let run = #[trigger] keep_alive_round(st, script)[k];
                (run.name == st.node_1 && run.mode == "PRIMARY"@) || (run.name == st.node_2
                    && run.mode == "SECONDARY"@)
            },
        v.next(ev).name == v.name,
        v.next(ev).script == v.script,
        v.next(ev).mode == v.mode,
{
}


/// The slot identities a state knows, in slot order, skipping empty ones.
pub open spec fn known_names(st: StateView) -> Seq<Seq<char>> {
    let first = if st.node_1.len() > 0 {
        seq![st.node_1]
    } else {
        Seq::empty()
    };
    if st.node_2.len() > 0 {
        first.push(st.node_2)
    } else {
        first
    }
}

/// The instances to verify for a saved state, with a pool of `pool_size`
/// credentials: none when the saved index lies outside the pool; otherwise
/// each identity the state knows, in slot order.
pub fn verification_targets(state: &State, pool_size: usize) -> (r: Option<Vec<String>>)
    ensures
        state.current_account_index >= pool_size ==> r is None,
        state.current_account_index < pool_size ==> r is Some && r->Some_0@.map_values(
            |n: String| n@,
        ) == known_names(state@),
{
    if state.current_account_index >= pool_size {
        return None;
    }
    let mut names: Vec<String> = Vec::new();
    if state.mawari_node_1_name.unicode_len() > 0 {
        names.push(state.mawari_node_1_name.clone());
    }
    if state.mawari_node_2_name.unicode_len() > 0 {
        names.push(state.mawari_node_2_name.clone());
    }
    assert(names@.map_values(|n: String| n@) =~= known_names(state@));
    Some(names)
}

} // verus!
