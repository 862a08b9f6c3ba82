//! Reconciliation: bring the desired slots of one account to running,
//! healthy instances.
//!
//! The reconciler is a state machine. Its driver asks it for the next
//! command ([`Reconciler::action`]), runs it, and hands the classified result
//! back ([`Reconciler::step`]). Slots are handled one after another: first the
//! listed instances are inspected (a healthy one is reused, any other is
//! stopped if running and deleted), then every slot still empty gets a new
//! instance, which is brought up with its startup script.

use vstd::prelude::*;
use crate::command::{
    create_command, delete_command, health_command, health_probe_text, launch_command,
    launch_text, list_command, ready_command, remote_words, startup_script_path, stop_command,
    Planned, Step,
};
use crate::gh::{health_check, probe_positive, result_view, Fault, GHError};
use crate::listing::{listing_records, listing_view, parse_listing, Listed, ListedView};
use crate::startup::{
    after_shell_probe, fault_of, shell_next, unreachable_error, unreachable_message, ShellNext,
    SHELL_ATTEMPTS,
};
use crate::text::{first_line, first_line_of, same_text, trim, trimmed};

verus! {

/// Creation commands tried for one slot before it is given up.
pub const CREATE_ATTEMPTS: u64 = 3;

/// Stop commands tried for one instance before going on to delete it.
pub const STOP_ATTEMPTS: u64 = 2;

/// Delete commands tried for one instance before leaving it behind.
pub const DELETE_ATTEMPTS: u64 = 3;

/// Backoff unit after a failed creation: the n-th retry waits n units.
pub const CREATE_BACKOFF_SECS: u64 = 10;

/// Pause after a stop before the delete.
pub const STOP_SETTLE_SECS: u64 = 3;

/// Pause before another stop.
pub const STOP_RETRY_SECS: u64 = 2;

/// Pause after a delete.
pub const DELETE_SETTLE_SECS: u64 = 2;

/// Pause before another delete.
pub const DELETE_RETRY_SECS: u64 = 3;

/// Pause after a creation before probing the new instance.
pub const BOOT_SECS: u64 = 5;

/// Pause before a slot's creation once the previous slot is settled.
pub const SLOT_PAUSE_SECS: u64 = 15;

/// A desired slot: the label its instance carries and the setup mode its
/// startup script runs in.
#[derive(Debug, Clone)]
pub struct SlotSpec {
    pub label: String,
    pub mode: String,
}

/// The mathematical content of a [`SlotSpec`].
pub struct SlotView {
    pub label: Seq<char>,
    pub mode: Seq<char>,
}

impl View for SlotSpec {
    type V = SlotView;

    open spec fn view(&self) -> SlotView {
        SlotView { label: self.label@, mode: self.mode@ }
    }
}

/// The two slots of the standard deployment.
pub fn standard_slots() -> (r: Vec<SlotSpec>)
    ensures
        r@.len() == 2,
        r@[0]@ == (SlotView { label: "mawari-multi-node-1"@, mode: "PRIMARY"@ }),
        r@[1]@ == (SlotView { label: "mawari-multi-node-2"@, mode: "SECONDARY"@ }),
{
    let mut r: Vec<SlotSpec> = Vec::new();
    r.push(
        SlotSpec {
            label: String::from_str("mawari-multi-node-1"),
            mode: String::from_str("PRIMARY"),
        },
    );
    r.push(
        SlotSpec {
            label: String::from_str("mawari-multi-node-2"),
            mode: String::from_str("SECONDARY"),
        },
    );
    r
}

/// Where a reconciliation stands. `record` indexes the listing, `slot` the
/// desired slots, `attempt` counts from 1.
#[derive(Debug, Clone, Copy, PartialEq, Eq)]
pub enum Stage {
    Listing,
    Probing { record: usize, slot: usize },
    Stopping { record: usize, attempt: u64 },
    Deleting { record: usize, attempt: u64 },
    Creating { slot: usize, attempt: u64 },
    AwaitingShell { slot: usize, attempt: u64 },
    Launching { slot: usize },
    Done,
    Failed,
}

/// How a reconciliation ended.
#[derive(Debug)]
pub enum ReconcileOutcome {
    /// The identity of each slot's instance; `None` for a slot that could not
    /// be brought up (a partial failure).
    Ready(Vec<Option<String>>),
    /// Nothing could be brought up, or the instances could not be listed.
    Failed(GHError),
}

/// A reconciliation of the desired slots of one repository.
pub struct Reconciler {
    repo: String,
    script: String,
    slots: Vec<SlotSpec>,
    listing: Vec<Listed>,
    identities: Vec<Option<String>>,
    reused: Vec<bool>,
    stage: Stage,
    wait: u64,
    error: Option<GHError>,
}

/// The mathematical content of a [`Reconciler`].
pub struct ReconcileView {
    pub repo: Seq<char>,
    pub script: Seq<char>,
    pub slots: Seq<SlotView>,
    pub listing: Seq<ListedView>,
    /// Per slot, the identity of its instance so far.
    pub identities: Seq<Option<Seq<char>>>,
    /// Per slot, whether its instance was found listed, healthy, and kept.
    pub reused: Seq<bool>,
    pub stage: Stage,
    /// Seconds to wait before the planned command.
    pub wait: u64,
    /// The last failure that cost a slot its instance, or stopped the run.
    pub error: Option<Fault>,
}

/// Optional texts seen through their views.
pub open spec fn names_view(v: Seq<Option<String>>) -> Seq<Option<Seq<char>>> {
    v.map_values(|o: Option<String>| opt_text(o))
}

pub open spec fn opt_text(o: Option<String>) -> Option<Seq<char>> {
    match o {
        Some(s) => Some(s@),
        None => None,
    }
}

/// Message of the error given when a slot's creation ran out of attempts.
pub open spec fn creation_failed_message() -> Seq<char> {
    "instance creation failed after every attempt"@
}

/// Message of the error given when no slot could be brought up.
pub open spec fn nothing_ready_message() -> Seq<char> {
    "no instance could be brought up"@
}

/// A health probe's classified result is positive.
pub open spec fn probe_ok(ev: Result<Seq<char>, Fault>) -> bool {
    ev is Ok && probe_positive(ev->Ok_0)
}

impl View for Reconciler {
    type V = ReconcileView;

    closed spec fn view(&self) -> ReconcileView {
        ReconcileView {
            repo: self.repo@,
            script: self.script@,
            slots: self.slots@.map_values(|s: SlotSpec| s@),
            listing: listing_view(self.listing@),
            identities: names_view(self.identities@),
            reused: self.reused@,
            stage: self.stage,
            wait: self.wait,
            error: fault_of(self.error),
        }
    }
}

impl ReconcileView {
    /// Indices held by the stage are in range, attempts within their bounds,
    /// and a reused slot holds an identity.
    pub open spec fn wf(self) -> bool {
        &&& self.wf_slots()
        &&& match self.stage {
            Stage::Probing { record, slot } => {
                &&& record < self.listing.len()
                &&& slot < self.slots.len()
                &&& self.identities[slot as int] is None
                &&& self.slots[slot as int].label == self.listing[record as int].display_name
                &&& self.listing[record as int].repository == self.repo
            },
            Stage::Stopping { record, attempt } => record < self.listing.len() && 1 <= attempt
                <= STOP_ATTEMPTS,
            Stage::Deleting { record, attempt } => record < self.listing.len() && 1 <= attempt
                <= DELETE_ATTEMPTS,
            Stage::Creating { slot, attempt } => {
                &&& slot < self.slots.len()
                &&& 1 <= attempt <= CREATE_ATTEMPTS
                &&& self.identities[slot as int] is None
            },
            Stage::AwaitingShell { slot, attempt } => {
                &&& slot < self.slots.len()
                &&& 1 <= attempt <= SHELL_ATTEMPTS
                &&& self.identities[slot as int] is Some
                &&& !self.reused[slot as int]
            },
            Stage::Launching { slot } => {
                &&& slot < self.slots.len()
                &&& self.identities[slot as int] is Some
                &&& !self.reused[slot as int]
            },
            _ => true,
        }
    }

    /// Per-slot sequences match the slots, and a reused slot holds an identity.
    pub open spec fn wf_slots(self) -> bool {
        &&& self.slots.len() <= usize::MAX
        &&& self.listing.len() <= usize::MAX
        &&& self.identities.len() == self.slots.len()
        &&& self.reused.len() == self.slots.len()
        &&& forall|s: int|
            0 <= s < self.slots.len() && #[trigger] self.reused[s] ==> self.identities[s] is Some
    }

    /// The first slot from `s` on that carries `label` and has no instance
    /// yet; the number of slots when there is none.
    pub open spec fn slot_from(self, label: Seq<char>, s: int) -> int
        decreases self.slots.len() - s,
    {
        if s < 0 || s >= self.slots.len() {
            self.slots.len() as int
        } else if self.slots[s].label == label && self.identities[s] is None {
            s
        } else {
            self.slot_from(label, s + 1)
        }
    }

    /// The listed instance `j` belongs to the repository and fills a slot
    /// that has no instance yet.
    pub open spec fn is_candidate(self, j: int) -> bool {
        &&& self.listing[j].repository == self.repo
        &&& self.slot_from(self.listing[j].display_name, 0) < self.slots.len()
    }

    /// The first candidate from `j` on; the listing's length when there is none.
    pub open spec fn candidate_from(self, j: int) -> int
        decreases self.listing.len() - j,
    {
        if j < 0 || j >= self.listing.len() {
            self.listing.len() as int
        } else if self.is_candidate(j) {
            j
        } else {
            self.candidate_from(j + 1)
        }
    }

    /// The first slot from `s` on without an instance; the number of slots
    /// when there is none.
    pub open spec fn unfilled_from(self, s: int) -> int
        decreases self.slots.len() - s,
    {
        if s < 0 || s >= self.slots.len() {
            self.slots.len() as int
        } else if self.identities[s] is None {
            s
        } else {
            self.unfilled_from(s + 1)
        }
    }

    pub open spec fn with_stage(self, stage: Stage, wait: u64) -> ReconcileView {
        ReconcileView { stage, wait, ..self }
    }

    /// Go on creating from slot `s`: the first empty slot is created, or the
    /// reconciliation is done.
    pub open spec fn creation_from(self, s: int, wait: u64) -> ReconcileView {
        let t = self.unfilled_from(s);
        if t < self.slots.len() {
            self.with_stage(Stage::Creating { slot: t as usize, attempt: 1 }, wait)
        } else {
            self.with_stage(Stage::Done, wait)
        }
    }

    /// What is done with the candidate `j`: a listed available instance is
    /// probed; a running one is stopped and deleted; any other is deleted.
    pub open spec fn record_stage(self, j: int) -> Stage {
        let rec = self.listing[j];
        if rec.state == "Available"@ {
            Stage::Probing {
                record: j as usize,
                slot: self.slot_from(rec.display_name, 0) as usize,
            }
        } else if rec.state == "Running"@ {
            Stage::Stopping { record: j as usize, attempt: 1 }
        } else {
            Stage::Deleting { record: j as usize, attempt: 1 }
        }
    }

    /// Go on inspecting from the listed instance `j`; when no candidate is
    /// left, go on to creation.
    pub open spec fn inspect_from(self, j: int, wait: u64) -> ReconcileView {
        let c = self.candidate_from(j);
        if c < self.listing.len() {
            self.with_stage(self.record_stage(c), wait)
        } else {
            self.creation_from(0, wait)
        }
    }

    /// The reconciliation once the listing has been read as `records`.
    pub open spec fn listed(self, records: Seq<ListedView>) -> ReconcileView {
        ReconcileView { listing: records, ..self }.inspect_from(0, 0)
    }

    /// The reconciliation after the result `ev` of its planned command.
    pub open spec fn next(self, ev: Result<Seq<char>, Fault>) -> ReconcileView {
        match self.stage {
            Stage::Listing => match ev {
                Ok(text) => self.listed(listing_records(text)),
                Err(e) => ReconcileView { error: Some(e), ..self }.with_stage(Stage::Failed, 0),
            },
            Stage::Probing { record, slot } => {
                if probe_ok(ev) {
                    ReconcileView {
                        identities: self.identities.update(
                            slot as int,
                            Some(self.listing[record as int].name),
                        ),
                        reused: self.reused.update(slot as int, true),
                        ..self
                    }.inspect_from(record + 1, 0)
                } else {
                    self.with_stage(Stage::Stopping { record, attempt: 1 }, 0)
                }
            },
            Stage::Stopping { record, attempt } => {
                if ev is Ok {
                    self.with_stage(Stage::Deleting { record, attempt: 1 }, STOP_SETTLE_SECS)
                } else if attempt < STOP_ATTEMPTS {
                    self.with_stage(
                        Stage::Stopping { record, attempt: (attempt + 1) as u64 },
                        STOP_RETRY_SECS,
                    )
                } else {
                    self.with_stage(Stage::Deleting { record, attempt: 1 }, 0)
                }
            },
            Stage::Deleting { record, attempt } => {
                if ev is Ok {
                    self.inspect_from(record + 1, DELETE_SETTLE_SECS)
                } else if attempt < DELETE_ATTEMPTS {
                    self.with_stage(
                        Stage::Deleting { record, attempt: (attempt + 1) as u64 },
                        DELETE_RETRY_SECS,
                    )
                } else {
                    self.inspect_from(record + 1, 0)
                }
            },
            Stage::Creating { slot, attempt } => {
                if ev is Ok && trimmed(ev->Ok_0).len() > 0 {
                    ReconcileView {
                        identities: self.identities.update(
                            slot as int,
                            Some(trimmed(first_line(ev->Ok_0))),
                        ),
                        ..self
                    }.with_stage(Stage::AwaitingShell { slot, attempt: 1 }, BOOT_SECS)
                } else if ev matches Err(Fault::Auth(_)) {
                    ReconcileView { error: Some(ev->Err_0), ..self }.creation_from(
                        slot + 1,
                        SLOT_PAUSE_SECS,
                    )
                } else if attempt < CREATE_ATTEMPTS {
                    self.with_stage(
                        Stage::Creating { slot, attempt: (attempt + 1) as u64 },
                        (CREATE_BACKOFF_SECS * attempt) as u64,
                    )
                } else {
                    ReconcileView {
                        error: Some(Fault::Command(creation_failed_message())),
                        ..self
                    }.creation_from(slot + 1, SLOT_PAUSE_SECS)
                }
            },
            Stage::AwaitingShell { slot, attempt } => match shell_next(attempt, ev) {
                ShellNext::Ready => self.with_stage(Stage::Launching { slot }, 0),
                ShellNext::Retry { wait_secs } => self.with_stage(
                    Stage::AwaitingShell { slot, attempt: (attempt + 1) as u64 },
                    wait_secs,
                ),
                ShellNext::GiveUp => ReconcileView {
                    identities: self.identities.update(slot as int, None),
                    error: Some(Fault::Timeout(unreachable_message())),
                    ..self
                }.creation_from(slot + 1, SLOT_PAUSE_SECS),
            },
            Stage::Launching { slot } => self.creation_from(slot + 1, SLOT_PAUSE_SECS),
            Stage::Done => self,
            Stage::Failed => self,
        }
    }

    /// The command planned in the current stage; none once finished.
    pub open spec fn planned(self) -> Option<Planned> {
        match self.stage {
            Stage::Listing => Some(
                Planned {
                    wait_secs: self.wait,
                    words: seq![
                        "codespace"@,
                        "list"@,
                        "--json"@,
                        "name,repository,state,displayName"@,
                    ],
                    timeout_secs: 90,
                },
            ),
            Stage::Probing { record, .. } => Some(
                Planned {
                    wait_secs: self.wait,
                    words: remote_words(self.listing[record as int].name, health_probe_text()),
                    timeout_secs: 25,
                },
            ),
            Stage::Stopping { record, .. } => Some(
                Planned {
                    wait_secs: self.wait,
                    words: seq!["codespace"@, "stop"@, "-c"@, self.listing[record as int].name],
                    timeout_secs: 45,
                },
            ),
            Stage::Deleting { record, .. } => Some(
                Planned {
                    wait_secs: self.wait,
                    words: seq![
                        "codespace"@,
                        "delete"@,
                        "-c"@,
                        self.listing[record as int].name,
                        "--force"@,
                    ],
                    timeout_secs: 45,
                },
            ),
            Stage::Creating { slot, .. } => Some(
                Planned {
                    wait_secs: self.wait,
                    words: seq![
                        "codespace"@,
                        "create"@,
                        "-r"@,
                        self.repo,
                        "-m"@,
                        "standardLinux32gb"@,
                        "--display-name"@,
                        self.slots[slot as int].label,
                        "--idle-timeout"@,
                        "240m"@,
                    ],
                    timeout_secs: 120,
                },
            ),
            Stage::AwaitingShell { slot, .. } => Some(
                Planned {
                    wait_secs: self.wait,
                    words: remote_words(self.identities[slot as int]->Some_0, "echo 'ready'"@),
                    timeout_secs: 20,
                },
            ),
            Stage::Launching { slot } => Some(
                Planned {
                    wait_secs: self.wait,
                    words: remote_words(
                        self.identities[slot as int]->Some_0,
                        launch_text(self.script, self.slots[slot as int].mode),
                    ),
                    timeout_secs: 30,
                },
            ),
            Stage::Done => None,
            Stage::Failed => None,
        }
    }

    /// Some slot holds an instance.
    pub open spec fn any_ready(self) -> bool {
        exists|s: int| 0 <= s < self.identities.len() && #[trigger] self.identities[s] is Some
    }

    /// The error a failed reconciliation reports.
    pub open spec fn failure(self) -> Fault {
        match self.error {
            Some(e) => e,
            None => Fault::Command(nothing_ready_message()),
        }
    }

    /// How a finished reconciliation ended: failed when the listing failed,
    /// or when there were slots and none of them holds an instance;
    /// otherwise the identity of each slot's instance.
    pub open spec fn outcome(self) -> Result<Seq<Option<Seq<char>>>, Fault> {
        if self.stage is Failed || (self.slots.len() > 0 && !self.any_ready()) {
            Err(self.failure())
        } else {
            Ok(self.identities)
        }
    }
}


proof fn lemma_slot_from(v: ReconcileView, label: Seq<char>, s: int)
    requires
        0 <= s,
    ensures
        0 <= v.slot_from(label, s) <= v.slots.len(),
        v.slot_from(label, s) < v.slots.len() ==> v.slots[v.slot_from(label, s)].label == label
            && v.identities[v.slot_from(label, s)] is None,
    decreases v.slots.len() - s,
{
    if s < v.slots.len() && !(v.slots[s].label == label && v.identities[s] is None) {
        lemma_slot_from(v, label, s + 1);
    }
}

proof fn lemma_candidate_from(v: ReconcileView, j: int)
    requires
        0 <= j,
    ensures
        v.candidate_from(j) <= v.listing.len(),
        v.candidate_from(j) < v.listing.len() ==> j <= v.candidate_from(j) && v.is_candidate(
            v.candidate_from(j),
        ),
    decreases v.listing.len() - j,
{
    if j < v.listing.len() && !v.is_candidate(j) {
        lemma_candidate_from(v, j + 1);
    }
}

proof fn lemma_unfilled_from(v: ReconcileView, s: int)
    requires
        0 <= s,
    ensures
        v.unfilled_from(s) <= v.slots.len(),
        v.unfilled_from(s) < v.slots.len() ==> s <= v.unfilled_from(s)
            && v.identities[v.unfilled_from(s)] is None,
    decreases v.slots.len() - s,
{
    if s < v.slots.len() && v.identities[s] is Some {
        lemma_unfilled_from(v, s + 1);
    }
}

proof fn lemma_creation_wf(v: ReconcileView, s: int, wait: u64)
    requires
        v.wf_slots(),
        0 <= s,
    ensures
        v.creation_from(s, wait).wf(),
        v.creation_from(s, wait).wf_slots(),
{
    lemma_unfilled_from(v, s);
}

proof fn lemma_inspect_wf(v: ReconcileView, j: int, wait: u64)
    requires
        v.wf_slots(),
        0 <= j,
    ensures
        v.inspect_from(j, wait).wf(),
{
    lemma_candidate_from(v, j);
    let c = v.candidate_from(j);
    if c < v.listing.len() {
        lemma_slot_from(v, v.listing[c].display_name, 0);
    } else {
        lemma_creation_wf(v, 0, wait);
    }
}

/// Starts the reconciliation of `slots` for the repository `repo`: nothing
/// is known yet, and the first command lists the account's instances.
pub fn ensure_healthy_codespaces(repo: &str, slots: Vec<SlotSpec>) -> (r: Reconciler)
    ensures
        r@.repo == repo@,
        r@.script == crate::command::script_path(repo@),
        r@.slots == slots@.map_values(|s: SlotSpec| s@),
        r@.listing.len() == 0,
        r@.identities == Seq::new(slots@.len(), |i: int| None::<Seq<char>>),
        r@.reused == Seq::new(slots@.len(), |i: int| false),
        r@.stage == Stage::Listing,
        r@.wait == 0,
        r@.error is None,
        r@.wf(),
{
    let n: usize = slots.len();
    let mut identities: Vec<Option<String>> = Vec::new();
    let mut reused: Vec<bool> = Vec::new();
    let mut i: usize = 0;
    while i < n
        invariant
            i <= n,
            identities@.len() == i,
            reused@.len() == i,
            forall|k: int| 0 <= k < i ==> #[trigger] identities@[k] is None,
            forall|k: int| 0 <= k < i ==> !#[trigger] reused@[k],
        decreases n - i,
    {
        identities.push(None);
        reused.push(false);
        i = i + 1;
    }
    let r = Reconciler {
        repo: String::from_str(repo),
        script: startup_script_path(repo),
        slots,
        listing: Vec::new(),
        identities,
        reused,
        stage: Stage::Listing,
        wait: 0,
        error: None,
    };
    assert(r@.identities =~= Seq::new(n as nat, |i: int| None::<Seq<char>>));
    assert(r@.reused =~= Seq::new(n as nat, |i: int| false));
    assert(r@.listing =~= Seq::<ListedView>::empty());
    r
}

impl Reconciler {
    proof fn lemma_view_lengths(&self)
        ensures
            self@.slots.len() == self.slots@.len(),
            self@.identities.len() == self.identities@.len(),
            self@.reused.len() == self.reused@.len(),
            self@.listing.len() == self.listing@.len(),
            forall|s: int| 0 <= s < self.slots@.len() ==> #[trigger] self@.slots[s] == self.slots@[s]@,
            forall|s: int| 0 <= s < self.identities@.len() ==> #[trigger] self@.identities[s] == opt_text(self.identities@[s]),
            forall|j: int| 0 <= j < self.listing@.len() ==> #[trigger] self@.listing[j] == self.listing@[j]@,
    {
    }

    fn slot_for(&self, label: &String) -> (r: usize)
        requires
            self.identities@.len() == self.slots@.len(),
        ensures
            r == self@.slot_from(label@, 0),
    {
        proof {
            self.lemma_view_lengths();
        }
        let n: usize = self.slots.len();
        let mut s: usize = 0;
        while s < n
            invariant
                n == self.slots@.len(),
                s <= n,
                self@.slots.len() == n,
                self.identities@.len() == n,
                forall|k: int| 0 <= k < n ==> #[trigger] self@.slots[k] == self.slots@[k]@,
                forall|k: int| 0 <= k < n ==> #[trigger] self@.identities[k] == opt_text(self.identities@[k]),
                self@.slot_from(label@, 0) == self@.slot_from(label@, s as int),
            decreases n - s,
        {
            if same_text(&self.slots[s].label, label) && self.identities[s].is_none() {
                return s;
            }
            s = s + 1;
        }
        n
    }

    fn candidate_at(&self, j: usize) -> (r: bool)
        requires
            self.identities@.len() == self.slots@.len(),
            j < self@.listing.len(),
        ensures
            r == self@.is_candidate(j as int),
    {
        proof {
            self.lemma_view_lengths();
        }
        same_text(&self.listing[j].repository, &self.repo) && self.slot_for(
            &self.listing[j].display_name,
        ) < self.slots.len()
    }

    fn next_candidate(&self, from: usize) -> (r: usize)
        requires
            self.identities@.len() == self.slots@.len(),
        ensures
            r == self@.candidate_from(from as int),
            self@.listing.len() <= usize::MAX,
    {
        proof {
            self.lemma_view_lengths();
        }
        let n: usize = self.listing.len();
        let mut j: usize = from;
        while j < n
            invariant
                n == self@.listing.len(),
                self.identities@.len() == self.slots@.len(),
                self@.candidate_from(from as int) == self@.candidate_from(j as int),
            decreases n - j,
        {
            if self.candidate_at(j) {
                return j;
            }
            j = j + 1;
        }
        n
    }

    fn first_unfilled(&self, from: usize) -> (r: usize)
        requires
            self.identities@.len() == self.slots@.len(),
        ensures
            r == self@.unfilled_from(from as int),
    {
        proof {
            self.lemma_view_lengths();
        }
        let n: usize = self.identities.len();
        let mut s: usize = from;
        while s < n
            invariant
                n == self@.slots.len(),
                n == self.identities@.len(),
                forall|k: int| 0 <= k < n ==> #[trigger] self@.identities[k] == opt_text(self.identities@[k]),
                self@.unfilled_from(from as int) == self@.unfilled_from(s as int),
            decreases n - s,
        {
            if self.identities[s].is_none() {
                return s;
            }
            s = s + 1;
        }
        n
    }

    fn enter_creation(&mut self, from: usize, wait: u64)
        requires
            old(self).identities@.len() == old(self).slots@.len(),
        ensures
            final(self)@ == old(self)@.creation_from(from as int, wait),
    {
        let t = self.first_unfilled(from);
        if t < self.identities.len() {
            self.stage = Stage::Creating { slot: t, attempt: 1 };
        } else {
            self.stage = Stage::Done;
        }
        self.wait = wait;
    }

    fn record_stage_at(&self, c: usize) -> (r: Stage)
        requires
            self.identities@.len() == self.slots@.len(),
            c < self@.listing.len(),
        ensures
            r == self@.record_stage(c as int),
    {
        proof {
            self.lemma_view_lengths();
        }
        let rec = &self.listing[c];
        if same_text(&rec.state, "Available") {
            Stage::Probing { record: c, slot: self.slot_for(&rec.display_name) }
        } else if same_text(&rec.state, "Running") {
            Stage::Stopping { record: c, attempt: 1 }
        } else {
            Stage::Deleting { record: c, attempt: 1 }
        }
    }

    fn enter_inspection(&mut self, from: usize, wait: u64)
        requires
            old(self).identities@.len() == old(self).slots@.len(),
        ensures
            final(self)@ == old(self)@.inspect_from(from as int, wait),
            old(self)@.listing.len() <= usize::MAX,
    {
        let c = self.next_candidate(from);
        if c < self.listing.len() {
            self.stage = self.record_stage_at(c);
            self.wait = wait;
        } else {
            self.enter_creation(0, wait);
        }
    }

    fn outcome_now(&self) -> (r: ReconcileOutcome)
        ensures
            self@.wf() ==> outcome_view(r) == self@.outcome(),
    {
        proof {
            self.lemma_view_lengths();
        }
        let n: usize = self.identities.len();
        let mut any: bool = false;
        let mut copy: Vec<Option<String>> = Vec::new();
        let mut s: usize = 0;
        while s < n
            invariant
                n == self.identities@.len(),
                s <= n,
                copy@.len() == s,
                forall|k: int| 0 <= k < s ==> opt_text(#[trigger] copy@[k]) == opt_text(self.identities@[k]),
                any == exists|k: int| 0 <= k < s && #[trigger] self.identities@[k] is Some,
            decreases n - s,
        {
            let item: Option<String> = match &self.identities[s] {
                Some(name) => {
                    any = true;
                    Some(name.clone())
                },
                None => None,
            };
            copy.push(item);
            s = s + 1;
        }
        proof {
            if self@.wf() {
                assert(any == self@.any_ready()) by {
                    if any {
                        let k = choose|k: int| 0 <= k < n && #[trigger] self.identities@[k] is Some;
                        assert(self@.identities[k] is Some);
                    }
                    if self@.any_ready() {
                        let k = choose|k: int| 0 <= k < self@.identities.len() && #[trigger] self@.identities[k] is Some;
                        assert(self.identities@[k] is Some);
                    }
                }
            }
        }
        let failed = match self.stage {
            Stage::Failed => true,
            _ => false,
        };
        if failed || (self.slots.len() > 0 && !any) {
            match &self.error {
                Some(e) => ReconcileOutcome::Failed(e.duplicate()),
                None => ReconcileOutcome::Failed(
                    GHError::CommandError(String::from_str("no instance could be brought up")),
                ),
            }
        } else {
            assert(names_view(copy@) =~= self@.identities);
            ReconcileOutcome::Ready(copy)
        }
    }

    /// What the reconciliation asks for next: a command to run, or its outcome
    /// once it has finished.
    pub fn action(&self) -> (r: Step<ReconcileOutcome>)
        ensures
            self@.wf() ==> r.planned() == self@.planned(),
            self@.wf() ==> (r matches Step::Complete(o) ==> outcome_view(o) == self@.outcome()),
    {
        proof {
            self.lemma_view_lengths();
        }
        let wait_secs = self.wait;
        match self.stage {
            Stage::Listing => Step::Run { wait_secs, command: list_command() },
            Stage::Probing { record, .. } => {
                if record < self.listing.len() {
                    Step::Run { wait_secs, command: health_command(self.listing[record].name.as_str()) }
                } else {
                    Step::Complete(self.outcome_now())
                }
            },
            Stage::Stopping { record, .. } => {
                if record < self.listing.len() {
                    Step::Run { wait_secs, command: stop_command(self.listing[record].name.as_str()) }
                } else {
                    Step::Complete(self.outcome_now())
                }
            },
            Stage::Deleting { record, .. } => {
                if record < self.listing.len() {
                    Step::Run { wait_secs, command: delete_command(self.listing[record].name.as_str()) }
                } else {
                    Step::Complete(self.outcome_now())
                }
            },
            Stage::Creating { slot, .. } => {
                if slot < self.slots.len() {
                    Step::Run {
                        wait_secs,
                        command: create_command(self.repo.as_str(), self.slots[slot].label.as_str()),
                    }
                } else {
                    Step::Complete(self.outcome_now())
                }
            },
            Stage::AwaitingShell { slot, .. } => {
                if slot < self.identities.len() {
                    match &self.identities[slot] {
                        Some(name) => Step::Run { wait_secs, command: ready_command(name.as_str()) },
                        None => Step::Complete(self.outcome_now()),
                    }
                } else {
                    Step::Complete(self.outcome_now())
                }
            },
            Stage::Launching { slot } => {
                if slot < self.identities.len() && slot < self.slots.len() {
                    match &self.identities[slot] {
                        Some(name) => Step::Run {
                            wait_secs,
                            command: launch_command(
                                name.as_str(),
                                self.script.as_str(),
                                self.slots[slot].mode.as_str(),
                            ),
                        },
                        None => Step::Complete(self.outcome_now()),
                    }
                } else {
                    Step::Complete(self.outcome_now())
                }
            },
            Stage::Done => Step::Complete(self.outcome_now()),
            Stage::Failed => Step::Complete(self.outcome_now()),
        }
    }
}

impl Reconciler {
    /// Takes the classified result of the command last planned.
    pub fn step(&mut self, ev: &Result<String, GHError>)
        ensures
            old(self)@.wf() ==> final(self)@ == old(self)@.next(result_view(*ev)),
            old(self)@.wf() ==> final(self)@.wf(),
            (old(self)@.stage is Listing && ev is Ok && ev->Ok_0@.len() == 0) ==> listing_records(
                ev->Ok_0@,
            ).len() == 0,
    {
        proof {
            self.lemma_view_lengths();
        }
        let ghost before = self@;
        match self.stage {
            Stage::Listing => match ev {
                Ok(text) => {
                    let records = parse_listing(text.as_str());
                    self.take_listing(records);
                },
                Err(e) => {
                    self.error = Some(e.duplicate());
                    self.stage = Stage::Failed;
                    self.wait = 0;
                },
            },
            Stage::Probing { record, slot } => {
                if record < self.listing.len() && slot < self.identities.len() && slot
                    < self.reused.len() {
                    if health_check(ev) {
                        let name = self.listing[record].name.clone();
                        self.identities[slot] = Some(name);
                        self.reused[slot] = true;
                        proof {
                            self.lemma_view_lengths();
                            if before.wf() {
                                let mid = ReconcileView {
                                    identities: before.identities.update(
                                        slot as int,
                                        Some(before.listing[record as int].name),
                                    ),
                                    reused: before.reused.update(slot as int, true),
                                    ..before
                                };
                                assert(self@.identities =~= mid.identities);
                                assert(self@ == mid);
                                lemma_inspect_wf(mid, record + 1, 0);
                            }
                        }
                        if self.identities.len() == self.slots.len() && self.reused.len()
                            == self.slots.len() {
                            self.enter_inspection(record + 1, 0);
                        }
                    } else {
                        self.stage = Stage::Stopping { record, attempt: 1 };
                        self.wait = 0;
                    }
                }
            },
            Stage::Stopping { record, attempt } => {
                if ev.is_ok() {
                    self.stage = Stage::Deleting { record, attempt: 1 };
                    self.wait = STOP_SETTLE_SECS;
                } else if attempt < STOP_ATTEMPTS {
                    self.stage = Stage::Stopping { record, attempt: attempt + 1 };
                    self.wait = STOP_RETRY_SECS;
                } else {
                    self.stage = Stage::Deleting { record, attempt: 1 };
                    self.wait = 0;
                }
            },
            Stage::Deleting { record, attempt } => {
                proof {
                    if before.wf() {
                        lemma_inspect_wf(before, record + 1, DELETE_SETTLE_SECS);
                        lemma_inspect_wf(before, record + 1, 0);
                    }
                }
                if ev.is_ok() {
                    if record < self.listing.len() && self.identities.len() == self.slots.len()
                        && self.reused.len() == self.slots.len() {
                        self.enter_inspection(record + 1, DELETE_SETTLE_SECS);
                    }
                } else if attempt < DELETE_ATTEMPTS {
                    self.stage = Stage::Deleting { record, attempt: attempt + 1 };
                    self.wait = DELETE_RETRY_SECS;
                } else {
                    if record < self.listing.len() && self.identities.len() == self.slots.len()
                        && self.reused.len() == self.slots.len() {
                        self.enter_inspection(record + 1, 0);
                    }
                }
            },
            Stage::Creating { slot, attempt } => {
                if slot < self.identities.len() && self.identities.len() == self.slots.len()
                    && self.reused.len() == self.slots.len() {
                    self.after_create(slot, attempt, ev);
                }
            },
            Stage::AwaitingShell { slot, attempt } => {
                if slot < self.identities.len() && self.identities.len() == self.slots.len()
                    && self.reused.len() == self.slots.len() {
                    match after_shell_probe(attempt, ev) {
                        ShellNext::Ready => {
                            self.stage = Stage::Launching { slot };
                            self.wait = 0;
                        },
                        ShellNext::Retry { wait_secs } => {
                            self.stage = Stage::AwaitingShell { slot, attempt: attempt + 1 };
                            self.wait = wait_secs;
                        },
                        ShellNext::GiveUp => {
                            self.identities[slot] = None;
                            self.error = Some(unreachable_error());
                            proof {
                                self.lemma_view_lengths();
                                if before.wf() {
                                    let mid = ReconcileView {
                                        identities: before.identities.update(slot as int, None),
                                        error: Some(Fault::Timeout(unreachable_message())),
                                        ..before
                                    };
                                    assert(self@.identities =~= mid.identities);
                                    assert(self@ == mid);
                                    assert(mid.wf_slots());
                                    lemma_creation_wf(mid, slot + 1, SLOT_PAUSE_SECS);
                                }
                            }
                            self.enter_creation(slot + 1, SLOT_PAUSE_SECS);
                        },
                    }
                }
            },
            Stage::Launching { slot } => {
                proof {
                    if before.wf() {
                        lemma_creation_wf(before, slot + 1, SLOT_PAUSE_SECS);
                    }
                }
                if slot < self.identities.len() && self.identities.len() == self.slots.len()
                    && self.reused.len() == self.slots.len() {
                    self.enter_creation(slot + 1, SLOT_PAUSE_SECS);
                }
            },
            Stage::Done => {},
            Stage::Failed => {},
        }
    }

    /// Takes the listing the control plane reported, once the listing
    /// command succeeded, and goes on to inspect it. Outside the listing
    /// stage it changes nothing.
    pub fn take_listing(&mut self, records: Vec<Listed>)
        ensures
            old(self)@.wf() && old(self)@.stage is Listing ==> final(self)@ == old(self)@.listed(
                listing_view(records@),
            ) && final(self)@.wf(),
            !(old(self)@.stage is Listing) ==> final(self)@ == old(self)@,
    {
        proof {
            self.lemma_view_lengths();
        }
        let ghost before = self@;
        match self.stage {
            Stage::Listing => {
                self.listing = records;
                let ghost taken = self@;
                proof {
                    self.lemma_view_lengths();
                }
                if self.identities.len() == self.slots.len() && self.reused.len()
                    == self.slots.len() {
                    self.enter_inspection(0, 0);
                }
                proof {
                    if before.wf() {
                        assert(taken == ReconcileView { listing: taken.listing, ..before });
                        lemma_inspect_wf(taken, 0, 0);
                    }
                }
            },
            _ => {},
        }
    }

    fn after_create(&mut self, slot: usize, attempt: u64, ev: &Result<String, GHError>)
        requires
            old(self).stage == (Stage::Creating { slot, attempt }),
            slot < old(self).identities@.len(),
            old(self).identities@.len() == old(self).slots@.len(),
        ensures
            old(self)@.wf() ==> final(self)@ == old(self)@.next(result_view(*ev)),
            old(self)@.wf() ==> final(self)@.wf(),
    {
        proof {
            self.lemma_view_lengths();
        }
        let n: usize = self.identities.len();
        let ghost before = self@;
        let created: Option<String> = match ev {
            Ok(out) => {
                if trim(out.as_str()).unicode_len() > 0 {
                    Some(trim(first_line_of(out.as_str()).as_str()))
                } else {
                    None
                }
            },
            Err(_) => None,
        };
        match created {
            Some(name) => {
                self.identities[slot] = Some(name);
                self.stage = Stage::AwaitingShell { slot, attempt: 1 };
                self.wait = BOOT_SECS;
                proof {
                    self.lemma_view_lengths();
                    if before.wf() {
                        assert(self@.identities =~= before.identities.update(
                            slot as int,
                            Some(trimmed(first_line(result_view(*ev)->Ok_0))),
                        ));
                    }
                }
            },
            None => {
                let refused = match ev {
                    Err(GHError::AuthError(_)) => true,
                    _ => false,
                };
                if refused {
                    match ev {
                        Err(e) => {
                            self.error = Some(e.duplicate());
                        },
                        Ok(_) => {},
                    }
                    proof {
                        if before.wf() {
                            lemma_creation_wf(self@, slot + 1, SLOT_PAUSE_SECS);
                        }
                    }
                    self.enter_creation(slot + 1, SLOT_PAUSE_SECS);
                } else if attempt < CREATE_ATTEMPTS {
                    self.stage = Stage::Creating { slot, attempt: attempt + 1 };
                    self.wait = CREATE_BACKOFF_SECS * attempt;
                } else {
                    self.error = Some(
                        GHError::CommandError(
                            String::from_str("instance creation failed after every attempt"),
                        ),
                    );
                    proof {
                        if before.wf() {
                            lemma_creation_wf(self@, slot + 1, SLOT_PAUSE_SECS);
                        }
                    }
                    self.enter_creation(slot + 1, SLOT_PAUSE_SECS);
                }
            },
        }
    }
}

/// An outcome seen through views.
pub open spec fn outcome_view(o: ReconcileOutcome) -> Result<Seq<Option<Seq<char>>>, Fault> {
    match o {
        ReconcileOutcome::Ready(v) => Ok(names_view(v@)),
        ReconcileOutcome::Failed(e) => Err(e@),
    }
}


/// Every step keeps a reconciliation well formed.
pub proof fn lemma_next_wf(v: ReconcileView, ev: Result<Seq<char>, Fault>)
    requires
        v.wf(),
        ev is Ok ==> listing_records(ev->Ok_0).len() <= usize::MAX,
    ensures
        v.next(ev).wf(),
{
    match v.stage {
        Stage::Listing => {
            if ev is Ok {
                lemma_inspect_wf(ReconcileView { listing: listing_records(ev->Ok_0), ..v }, 0, 0);
            }
        },
        Stage::Probing { record, slot } => {
            if probe_ok(ev) {
                let mid = ReconcileView {
                    identities: v.identities.update(slot as int, Some(v.listing[record as int].name)),
                    reused: v.reused.update(slot as int, true),
                    ..v
                };
                lemma_inspect_wf(mid, record + 1, 0);
            }
        },
        Stage::Deleting { record, attempt } => {
            lemma_inspect_wf(v, record + 1, DELETE_SETTLE_SECS);
            lemma_inspect_wf(v, record + 1, 0);
        },
        Stage::Creating { slot, attempt } => {
            lemma_creation_wf(ReconcileView { error: Some(ev->Err_0), ..v }, slot + 1, SLOT_PAUSE_SECS);
            lemma_creation_wf(
                ReconcileView { error: Some(Fault::Command(creation_failed_message())), ..v },
                slot + 1,
                SLOT_PAUSE_SECS,
            );
        },
        Stage::AwaitingShell { slot, attempt } => {
            let mid = ReconcileView {
                identities: v.identities.update(slot as int, None),
                error: Some(Fault::Timeout(unreachable_message())),
                ..v
            };
            lemma_creation_wf(mid, slot + 1, SLOT_PAUSE_SECS);
        },
        Stage::Launching { slot } => {
            lemma_creation_wf(v, slot + 1, SLOT_PAUSE_SECS);
        },
        _ => {},
    }
}

/// Reuse happens exactly on a positive health probe. When a listed instance
/// is probed for a slot, the slot keeps that instance, marked reused, if and
/// only if the probe is positive; the instance belongs to the repository and
/// carries the slot's label. After a negative probe the slot stays empty and
/// the instance is stopped next, to be deleted.
pub proof fn lemma_reuse_iff_healthy(
    v: ReconcileView,
    ev: Result<Seq<char>, Fault>,
)
    requires
        v.wf(),
        v.stage is Probing,
    ensures
        ({
            let (j, s) = match v.stage {
                Stage::Probing { record, slot } => (record as int, slot as int),
                _ => (0, 0),
            };
            let w = v.next(ev);
            &&& (w.reused[s] && w.identities[s] == Some(v.listing[j].name)) <==> probe_ok(ev)
            &&& v.listing[j].repository == v.repo
            &&& v.slots[s].label == v.listing[j].display_name
            &&& !probe_ok(ev) ==> w.identities == v.identities && w.reused == v.reused
                && w.stage == Stage::Stopping { record: j as usize, attempt: 1 }
        }),
{
}

/// Creation is tried at most [`CREATE_ATTEMPTS`] times per slot. The attempt
/// number of a creation stays within the bound; the same slot is created
/// again only after a failure that is not a refused credential, below the
/// bound, and with the number one higher; otherwise the machine moves on to a
/// later slot (or finishes) and never returns to this one. A refused
/// credential ends the slot's creation at once, leaving it empty.
pub proof fn lemma_create_retry_bound(
    v: ReconcileView,
    ev: Result<Seq<char>, Fault>,
)
    requires
        v.wf(),
        v.stage is Creating,
    ensures
        ({
            let (s, a) = match v.stage {
                Stage::Creating { slot, attempt } => (slot, attempt),
                _ => (0, 0),
            };
            let w = v.next(ev);
            &&& 1 <= a <= CREATE_ATTEMPTS
            &&& w.stage matches Stage::Creating { slot, attempt } ==> (slot == s && attempt == a + 1
                && a < CREATE_ATTEMPTS && !(ev matches Err(Fault::Auth(_)))) || slot > s
            &&& ev matches Err(Fault::Auth(_)) ==> {
                &&& !(w.stage matches Stage::Creating { slot, .. } && slot == s)
                &&& w.identities[s as int] is None
                &&& w.error == Some(ev->Err_0)
            }
        }),
{
    match v.stage {
        Stage::Creating { slot, attempt } => {
            lemma_unfilled_from(ReconcileView { error: Some(ev->Err_0), ..v }, slot + 1);
            lemma_unfilled_from(
                ReconcileView { error: Some(Fault::Command(creation_failed_message())), ..v },
                slot + 1,
            );
        },
        _ => {},
    }
}


/// A slot's identity comes from one of two places only. When a step gives a
/// slot an identity it did not hold, either the slot's listed instance was
/// probed positive (the listed name, marked reused), or the slot's creation
/// succeeded (the first line of the control plane's answer, not reused). The
/// orchestrator never makes an identity up, and never reuses an instance
/// whose probe was negative.
pub proof fn lemma_identity_sources(
    v: ReconcileView,
    ev: Result<Seq<char>, Fault>,
    s: int,
)
    requires
        v.wf(),
        0 <= s < v.slots.len(),
        v.next(ev).identities[s] is Some,
        v.next(ev).identities[s] != v.identities[s],
    ensures
        ({
            let w = v.next(ev);
            ||| (v.stage matches Stage::Probing { record, slot } && slot == s && probe_ok(ev)
                && w.identities[s] == Some(v.listing[record as int].name) && w.reused[s])
            ||| (v.stage matches Stage::Creating { slot, .. } && slot == s && ev is Ok
                && w.identities[s] == Some(trimmed(first_line(ev->Ok_0))) && !w.reused[s])
        }),
{
}


/// A listing that reports nothing (an empty text, or one that is not a JSON
/// array) sends the reconciliation straight to creating the first slot
/// without an instance: nothing is probed, stopped or deleted.
pub proof fn lemma_empty_listing_creates(v: ReconcileView, text: Seq<char>)
    requires
        v.wf(),
        (v.stage is Listing),
        listing_records(text).len() == 0,
    ensures
        v.next(Ok(text)) == (ReconcileView { listing: Seq::empty(), ..v }).creation_from(0, 0),
{
    let w = ReconcileView { listing: listing_records(text), ..v };
    assert(w.candidate_from(0) == 0);
    assert(listing_records(text) =~= Seq::empty());
}


/// The reconciliation after the results `evs` of its planned commands, in order.
pub open spec fn run(v: ReconcileView, evs: Seq<Result<Seq<char>, Fault>>) -> ReconcileView
    decreases evs.len(),
{
    if evs.len() == 0 {
        v
    } else {
        run(v.next(evs[0]), evs.drop_first())
    }
}

/// Each listing answer among `evs` reads as a listing that fits in memory.
pub open spec fn listings_fit(evs: Seq<Result<Seq<char>, Fault>>) -> bool {
    forall|i: int|
        0 <= i < evs.len() && evs[i] is Ok ==> #[trigger] listing_records(evs[i]->Ok_0).len()
            <= usize::MAX
}

/// Creation commands for slot `s` answered by `evs`, starting from `v`.
pub open spec fn creates_issued(v: ReconcileView, evs: Seq<Result<Seq<char>, Fault>>, s: int) -> int
    decreases evs.len(),
{
    if evs.len() == 0 {
        0
    } else {
        (if v.stage matches Stage::Creating { slot, .. } && slot == s {
            1int
        } else {
            0int
        }) + creates_issued(v.next(evs[0]), evs.drop_first(), s)
    }
}

/// Some step of the run probes, for slot `s`, a listed instance named `n`
/// and finds it healthy.
pub open spec fn probed_in(v: ReconcileView, evs: Seq<Result<Seq<char>, Fault>>, s: int, n: Seq<char>) -> bool
    decreases evs.len(),
{
    if evs.len() == 0 {
        false
    } else {
        ||| (v.stage matches Stage::Probing { record, slot } && slot == s && probe_ok(evs[0])
            && v.listing[record as int].name == n)
        ||| probed_in(v.next(evs[0]), evs.drop_first(), s, n)
    }
}

/// Some step of the run creates slot `s`, and the control plane answers
/// with `n` as the first line of its output.
pub open spec fn created_in(v: ReconcileView, evs: Seq<Result<Seq<char>, Fault>>, s: int, n: Seq<char>) -> bool
    decreases evs.len(),
{
    if evs.len() == 0 {
        false
    } else {
        ||| (v.stage matches Stage::Creating { slot, .. } && slot == s && evs[0] is Ok
            && trimmed(first_line(evs[0]->Ok_0)) == n)
        ||| created_in(v.next(evs[0]), evs.drop_first(), s, n)
    }
}

/// Creation commands that slot `s` may still receive from `v` on.
pub open spec fn create_budget(v: ReconcileView, s: int) -> int {
    match v.stage {
        Stage::Creating { slot, attempt } => if slot < s {
            CREATE_ATTEMPTS as int
        } else if slot == s {
            CREATE_ATTEMPTS - attempt + 1
        } else {
            0
        },
        Stage::AwaitingShell { slot, .. } => if slot < s {
            CREATE_ATTEMPTS as int
        } else {
            0
        },
        Stage::Launching { slot } => if slot < s {
            CREATE_ATTEMPTS as int
        } else {
            0
        },
        Stage::Done => 0,
        Stage::Failed => 0,
        _ => CREATE_ATTEMPTS as int,
    }
}

proof fn lemma_fit_rest(evs: Seq<Result<Seq<char>, Fault>>)
    requires
        listings_fit(evs),
        evs.len() > 0,
    ensures
        listings_fit(evs.drop_first()),
        evs[0] is Ok ==> listing_records(evs[0]->Ok_0).len() <= usize::MAX,
{
    assert forall|i: int|
        0 <= i < evs.drop_first().len() && evs.drop_first()[i] is Ok implies #[trigger] listing_records(
        evs.drop_first()[i]->Ok_0,
    ).len() <= usize::MAX by {
        assert(evs.drop_first()[i] == evs[i + 1]);
    }
}

proof fn lemma_creation_stage(v: ReconcileView, t: int, wait: u64)
    requires
        0 <= t,
        v.slots.len() <= usize::MAX,
    ensures
        v.creation_from(t, wait).stage is Done || (v.creation_from(t, wait).stage matches Stage::Creating {
            slot,
            attempt,
        } && slot >= t && attempt == 1),
{
    lemma_unfilled_from(v, t);
}

proof fn lemma_budget_step(v: ReconcileView, ev: Result<Seq<char>, Fault>, s: int)
    requires
        v.wf(),
        0 <= s,
    ensures
        0 <= create_budget(v, s) <= CREATE_ATTEMPTS,
        (if v.stage matches Stage::Creating { slot, .. } && slot == s {
            1int
        } else {
            0int
        }) + create_budget(v.next(ev), s) <= create_budget(v, s),
{
    let w = v.next(ev);
    match v.stage {
        Stage::Listing => {
            if ev is Ok {
                let l = ReconcileView { listing: listing_records(ev->Ok_0), ..v };
                lemma_creation_stage(l, 0, 0);
            }
        },
        Stage::Probing { record, slot } => {
            if probe_ok(ev) {
                let mid = ReconcileView {
                    identities: v.identities.update(slot as int, Some(v.listing[record as int].name)),
                    reused: v.reused.update(slot as int, true),
                    ..v
                };
                lemma_creation_stage(mid, 0, 0);
            }
        },
        Stage::Deleting { record, .. } => {
            lemma_creation_stage(v, 0, DELETE_SETTLE_SECS);
            lemma_creation_stage(v, 0, 0);
        },
        Stage::Creating { slot, attempt } => {
            lemma_creation_stage(ReconcileView { error: Some(ev->Err_0), ..v }, slot + 1, SLOT_PAUSE_SECS);
            lemma_creation_stage(
                ReconcileView { error: Some(Fault::Command(creation_failed_message())), ..v },
                slot + 1,
                SLOT_PAUSE_SECS,
            );
        },
        Stage::AwaitingShell { slot, .. } => {
            let mid = ReconcileView {
                identities: v.identities.update(slot as int, None),
                error: Some(Fault::Timeout(unreachable_message())),
                ..v
            };
            lemma_creation_stage(mid, slot + 1, SLOT_PAUSE_SECS);
        },
        Stage::Launching { slot } => {
            lemma_creation_stage(v, slot + 1, SLOT_PAUSE_SECS);
        },
        _ => {},
    }
}

proof fn lemma_creates_within_budget(v: ReconcileView, evs: Seq<Result<Seq<char>, Fault>>, s: int)
    requires
        v.wf(),
        listings_fit(evs),
        0 <= s,
    ensures
        creates_issued(v, evs, s) <= create_budget(v, s),
    decreases evs.len(),
{
    lemma_budget_step(v, Ok(Seq::empty()), s);
    if evs.len() > 0 {
        lemma_fit_rest(evs);
        lemma_next_wf(v, evs[0]);
        lemma_budget_step(v, evs[0], s);
        lemma_creates_within_budget(v.next(evs[0]), evs.drop_first(), s);
    }
}

/// Over a whole reconciliation, whatever the control plane answers, each
/// slot receives at most [`CREATE_ATTEMPTS`] creation commands.
pub proof fn lemma_create_attempts_per_slot(
    v: ReconcileView,
    evs: Seq<Result<Seq<char>, Fault>>,
    s: int,
)
    requires
        v.wf(),
        listings_fit(evs),
        0 <= s,
    ensures
        creates_issued(v, evs, s) <= CREATE_ATTEMPTS,
{
    lemma_creates_within_budget(v, evs, s);
    lemma_budget_step(v, Ok(Seq::empty()), s);
}


proof fn lemma_reused_stays(v: ReconcileView, evs: Seq<Result<Seq<char>, Fault>>, s: int)
    requires
        v.wf(),
        listings_fit(evs),
        0 <= s < v.slots.len(),
        v.reused[s],
    ensures
        run(v, evs).reused[s],
        run(v, evs).identities[s] == v.identities[s],
    decreases evs.len(),
{
    if evs.len() > 0 {
        lemma_fit_rest(evs);
        lemma_next_wf(v, evs[0]);
        lemma_reused_stays(v.next(evs[0]), evs.drop_first(), s);
    }
}

proof fn lemma_reuse_source_step(v: ReconcileView, ev: Result<Seq<char>, Fault>, s: int)
    requires
        v.wf(),
        0 <= s < v.slots.len(),
        !v.reused[s],
        v.next(ev).reused[s],
    ensures
        v.stage matches Stage::Probing { record, slot } && slot == s && probe_ok(ev)
            && v.next(ev).identities[s] == Some(v.listing[record as int].name),
{
}

proof fn lemma_sources(v: ReconcileView, evs: Seq<Result<Seq<char>, Fault>>, s: int)
    requires
        v.wf(),
        listings_fit(evs),
        0 <= s < v.slots.len(),
    ensures
        run(v, evs).identities[s] matches Some(n) ==> v.identities[s] == Some(n) || probed_in(
            v,
            evs,
            s,
            n,
        ) || created_in(v, evs, s, n),
        run(v, evs).reused[s] && !v.reused[s] ==> probed_in(
            v,
            evs,
            s,
            run(v, evs).identities[s]->Some_0,
        ),
    decreases evs.len(),
{
    if evs.len() > 0 {
        let w = v.next(evs[0]);
        let rest = evs.drop_first();
        lemma_fit_rest(evs);
        lemma_next_wf(v, evs[0]);
        lemma_sources(w, rest, s);
        let fin = run(v, evs);
        assert(fin == run(w, rest));
        if fin.identities[s] is Some {
            let n = fin.identities[s]->Some_0;
            if w.identities[s] == Some(n) && v.identities[s] != Some(n) {
                lemma_identity_sources(v, evs[0], s);
            }
        }
        if fin.reused[s] && !v.reused[s] && w.reused[s] {
            lemma_reuse_source_step(v, evs[0], s);
            lemma_reused_stays(w, rest, s);
        }
    }
}

/// Over a whole reconciliation, whatever the control plane answers, a slot
/// that started empty ends with an identity only from its own probe or its
/// own creation: the name of a listed instance whose health probe was
/// positive, or the first line of a creation answer. A slot that ends reused
/// holds the name of a listed instance that some step probed positive for it.
/// A stale name, or an instance whose probe failed, is never returned as is.
pub proof fn lemma_run_identity_sources(
    v: ReconcileView,
    evs: Seq<Result<Seq<char>, Fault>>,
    s: int,
)
    requires
        v.wf(),
        listings_fit(evs),
        0 <= s < v.slots.len(),
        v.identities[s] is None,
    ensures
        run(v, evs).identities[s] matches Some(n) ==> probed_in(v, evs, s, n) || created_in(
            v,
            evs,
            s,
            n,
        ),
        run(v, evs).reused[s] ==> probed_in(v, evs, s, run(v, evs).identities[s]->Some_0),
{
    lemma_sources(v, evs, s);
}

} // verus!
