//! The lock-resolution escalation: normalize, suspend, probe, terminate
//! gracefully, probe, terminate by force, probe. The decisions live here; the
//! caller performs each action and reports back what a probe found.

use vstd::prelude::*;
use crate::process::{
    candidate_pids, find_file_lock_owners, graceful_pids, graceful_targets, is_candidate,
    is_shell, lemma_candidate_selected, lemma_shell_spared, pid_named, LockConfig, ProcessInfo,
};

verus! {

/// Settling time before the probe that follows suspension.
pub const SETTLE_AFTER_SUSPEND_MS: u64 = 500;

/// Settling time before the probe that follows graceful termination.
pub const SETTLE_AFTER_TERMINATE_MS: u64 = 1000;

/// Settling time before the final probe.
pub const SETTLE_AFTER_FORCE_MS: u64 = 1500;

/// What lock resolution concluded.
#[derive(Debug, Clone, Copy, PartialEq, Eq, Structural)]
pub enum LockOutcome {
    Neutralized,
    StillLocked,
    /// No process looked like a lock owner; nothing was suspended,
    /// terminated or probed.
    NoCandidates,
}

/// Where the escalation stands. Phases: normalization is 0, suspension 1,
/// the probe after it 2, graceful termination and its probe 3, forced
/// termination and its probe 4.
#[derive(Debug, Clone, Copy, PartialEq, Eq, Structural)]
pub enum EscalationStage {
    Normalize,
    Suspend,
    ProbeSuspended,
    Graceful,
    ProbeGraceful,
    Forced,
    ProbeForced,
    Done(LockOutcome),
}

/// What the caller is to do next.
#[derive(Debug)]
pub enum EscalationAction {
    /// Clear the file's restrictive attributes (best effort).
    NormalizeAttributes,
    /// Suspend every thread of each of these processes (failures are logged).
    Suspend { pids: Vec<u32> },
    /// Wait this long, then try to open the file for writing.
    Probe { settle_ms: u64 },
    /// Terminate each of these processes (failures are logged).
    Terminate { pids: Vec<u32>, forced: bool },
    /// Resolution is over.
    Report(LockOutcome),
}

/// The escalation phase a stage belongs to.
pub open spec fn phase_of(st: EscalationStage) -> int {
    match st {
        EscalationStage::Normalize => 0,
        EscalationStage::Suspend => 1,
        EscalationStage::ProbeSuspended => 2,
        EscalationStage::Graceful => 3,
        EscalationStage::ProbeGraceful => 3,
        EscalationStage::Forced => 4,
        EscalationStage::ProbeForced => 4,
        EscalationStage::Done(_) => 5,
    }
}

/// The position of a stage in the escalation.
pub open spec fn rank_of(st: EscalationStage) -> int {
    match st {
        EscalationStage::Normalize => 0,
        EscalationStage::Suspend => 1,
        EscalationStage::ProbeSuspended => 2,
        EscalationStage::Graceful => 3,
        EscalationStage::ProbeGraceful => 4,
        EscalationStage::Forced => 5,
        EscalationStage::ProbeForced => 6,
        EscalationStage::Done(_) => 7,
    }
}

/// The stage is a probe of the target file.
pub open spec fn is_probe(st: EscalationStage) -> bool {
    ||| st == EscalationStage::ProbeSuspended
    ||| st == EscalationStage::ProbeGraceful
    ||| st == EscalationStage::ProbeForced
}

/// The stage that follows `st` once its action was carried out; `accessible`
/// is what a probe found and is ignored after any other action; `idle` says
/// that there is no candidate, which ends resolution after normalization.
pub open spec fn next_stage(st: EscalationStage, accessible: bool, idle: bool) -> EscalationStage {
    match st {
        EscalationStage::Normalize => if idle {
            EscalationStage::Done(LockOutcome::NoCandidates)
        } else {
            EscalationStage::Suspend
        },
        EscalationStage::Suspend => EscalationStage::ProbeSuspended,
        EscalationStage::ProbeSuspended => if accessible {
            EscalationStage::Done(LockOutcome::Neutralized)
        } else {
            EscalationStage::Graceful
        },
        EscalationStage::Graceful => EscalationStage::ProbeGraceful,
        EscalationStage::ProbeGraceful => if accessible {
            EscalationStage::Done(LockOutcome::Neutralized)
        } else {
            EscalationStage::Forced
        },
        EscalationStage::Forced => EscalationStage::ProbeForced,
        EscalationStage::ProbeForced => if accessible {
            EscalationStage::Done(LockOutcome::Neutralized)
        } else {
            EscalationStage::Done(LockOutcome::StillLocked)
        },
        EscalationStage::Done(o) => EscalationStage::Done(o),
    }
}

/// The abstract state of a resolver.
pub struct ResolverView {
    /// Every lock-owner candidate.
    pub candidates: Seq<u32>,
    /// The candidates that are not the shell.
    pub graceful: Seq<u32>,
    pub stage: EscalationStage,
}

/// `a` is the action that stage `v.stage` calls for.
pub open spec fn action_is(a: EscalationAction, v: ResolverView) -> bool {
    match v.stage {
        EscalationStage::Normalize => a is NormalizeAttributes,
        EscalationStage::Suspend => a matches EscalationAction::Suspend { pids } && pids@ == v.candidates,
        EscalationStage::ProbeSuspended => a == (EscalationAction::Probe { settle_ms: SETTLE_AFTER_SUSPEND_MS }),
        EscalationStage::Graceful => a matches EscalationAction::Terminate { pids, forced } && pids@
            == v.graceful && !forced,
        EscalationStage::ProbeGraceful => a == (EscalationAction::Probe { settle_ms: SETTLE_AFTER_TERMINATE_MS }),
        EscalationStage::Forced => a matches EscalationAction::Terminate { pids, forced } && pids@
            == v.candidates && forced,
        EscalationStage::ProbeForced => a == (EscalationAction::Probe { settle_ms: SETTLE_AFTER_FORCE_MS }),
        EscalationStage::Done(o) => a == EscalationAction::Report(o),
    }
}

/// The resolver that escalation starts from for `target` over `snapshot`.
pub open spec fn initial_view(s: Seq<ProcessInfo>, target: Seq<char>, cfg: LockConfig) -> ResolverView {
    ResolverView {
        candidates: candidate_pids(s, target, cfg),
        graceful: graceful_pids(s, target, cfg),
        stage: EscalationStage::Normalize,
    }
}

/// Drives the escalation against the lock owners of one file.
pub struct LockResolver {
    candidates: Vec<u32>,
    graceful: Vec<u32>,
    stage: EscalationStage,
}

impl View for LockResolver {
    type V = ResolverView;

    closed spec fn view(&self) -> ResolverView {
        ResolverView { candidates: self.candidates@, graceful: self.graceful@, stage: self.stage }
    }
}

impl LockResolver {
    /// Starts resolution for `target`, picking candidates from `snapshot`.
    pub fn new(snapshot: &Vec<ProcessInfo>, target: &str, cfg: &LockConfig) -> (r: LockResolver)
        ensures
            r@ == initial_view(snapshot@, target@, *cfg),
    {
        let candidates = find_file_lock_owners(snapshot, target, cfg);
        let graceful = graceful_targets(snapshot, target, cfg);
        LockResolver { candidates, graceful, stage: EscalationStage::Normalize }
    }

    /// The current stage.
    pub fn stage(&self) -> (r: EscalationStage)
        ensures
            r == self@.stage,
    {
        self.stage
    }

    /// The outcome, once resolution is over.
    pub fn outcome(&self) -> (r: Option<LockOutcome>)
        ensures
            match self@.stage {
                EscalationStage::Done(o) => r == Some(o),
                _ => r is None,
            },
    {
        match self.stage {
            EscalationStage::Done(o) => Some(o),
            _ => None,
        }
    }

    /// The action the current stage calls for.
    pub fn next_action(&self) -> (a: EscalationAction)
        ensures
            action_is(a, self@),
    {
        match self.stage {
            EscalationStage::Normalize => EscalationAction::NormalizeAttributes,
            EscalationStage::Suspend => EscalationAction::Suspend { pids: copy_pids(&self.candidates) },
            EscalationStage::ProbeSuspended => EscalationAction::Probe { settle_ms: SETTLE_AFTER_SUSPEND_MS },
            EscalationStage::Graceful => EscalationAction::Terminate {
                pids: copy_pids(&self.graceful),
                forced: false,
            },
            EscalationStage::ProbeGraceful => EscalationAction::Probe { settle_ms: SETTLE_AFTER_TERMINATE_MS },
            EscalationStage::Forced => EscalationAction::Terminate {
                pids: copy_pids(&self.candidates),
                forced: true,
            },
            EscalationStage::ProbeForced => EscalationAction::Probe { settle_ms: SETTLE_AFTER_FORCE_MS },
            EscalationStage::Done(o) => EscalationAction::Report(o),
        }
    }

    /// Records that the current action was carried out; `accessible` is
    /// what the probe found, where the action was a probe.
    pub fn advance(&mut self, accessible: bool)
        ensures
            final(self)@.stage == next_stage(old(self)@.stage, accessible, old(self)@.candidates.len() == 0),
            final(self)@.candidates == old(self)@.candidates,
            final(self)@.graceful == old(self)@.graceful,
    {
        self.stage = match self.stage {
            EscalationStage::Normalize => if self.candidates.len() == 0 {
                EscalationStage::Done(LockOutcome::NoCandidates)
            } else {
                EscalationStage::Suspend
            },
            EscalationStage::Suspend => EscalationStage::ProbeSuspended,
            EscalationStage::ProbeSuspended => if accessible {
                EscalationStage::Done(LockOutcome::Neutralized)
            } else {
                EscalationStage::Graceful
            },
            EscalationStage::Graceful => EscalationStage::ProbeGraceful,
            EscalationStage::ProbeGraceful => if accessible {
                EscalationStage::Done(LockOutcome::Neutralized)
            } else {
                EscalationStage::Forced
            },
            EscalationStage::Forced => EscalationStage::ProbeForced,
            EscalationStage::ProbeForced => if accessible {
                EscalationStage::Done(LockOutcome::Neutralized)
            } else {
                EscalationStage::Done(LockOutcome::StillLocked)
            },
            EscalationStage::Done(o) => EscalationStage::Done(o),
        };
    }
}

/// A copy of a list of pids.
fn copy_pids(v: &Vec<u32>) -> (r: Vec<u32>)
    ensures
        r@ == v@,
{
    let mut out: Vec<u32> = Vec::new();
    let mut i: usize = 0;
    while i < v.len()
        invariant
            i <= v@.len(),
            out@ == v@.subrange(0, i as int),
        decreases v@.len() - i,
    {
        out.push(v[i]);
        assert(v@.subrange(0, i + 1) =~= v@.subrange(0, i as int).push(v@[i as int]));
        i = i + 1;
    }
    assert(v@.subrange(0, v@.len() as int) =~= v@);
    out
}

/// The escalation only moves forward, one stage at a time, through phases
/// 0, 1, 2, 3 and 4 in that order; it ends only on a probe, or right after
/// normalization when there is no candidate, and once over it stays over.
pub proof fn lemma_escalation_order(st: EscalationStage, accessible: bool, idle: bool)
    ensures
        st is Done ==> next_stage(st, accessible, idle) == st,
        !(st is Done) ==> {
            ||| rank_of(next_stage(st, accessible, idle)) == rank_of(st) + 1
            ||| (next_stage(st, accessible, idle) is Done && is_probe(st))
            ||| (next_stage(st, accessible, idle) == EscalationStage::Done(LockOutcome::NoCandidates) && st
                == EscalationStage::Normalize && idle)
        },
        !(st is Done) && !(next_stage(st, accessible, idle) is Done) ==> {
            ||| phase_of(next_stage(st, accessible, idle)) == phase_of(st)
            ||| phase_of(next_stage(st, accessible, idle)) == phase_of(st) + 1
        },
        next_stage(st, accessible, idle) == EscalationStage::Done(LockOutcome::StillLocked) ==> (st
            == EscalationStage::ProbeForced || st == EscalationStage::Done(LockOutcome::StillLocked)),
{
}

/// With no candidate, resolution normalizes and then ends: no process is
/// suspended or terminated and the file is never probed.
pub proof fn lemma_no_candidates_no_escalation(v: ResolverView, accessible: bool)
    requires
        v.candidates.len() == 0,
        v.stage == EscalationStage::Normalize,
    ensures
        next_stage(v.stage, accessible, v.candidates.len() == 0) == EscalationStage::Done(
            LockOutcome::NoCandidates,
        ),
{
}

/// Graceful termination spares the shell while forced termination does not:
/// a shell process that is a candidate, and whose pid no critical process
/// carries, is in the forced set and never in the graceful set.
pub proof fn lemma_shell_only_forced(s: Seq<ProcessInfo>, target: Seq<char>, cfg: LockConfig, i: int)
    requires
        0 <= i < s.len(),
        is_shell(s[i], cfg),
        is_candidate(s[i], target, cfg),
        !pid_named(s, s[i].pid, cfg.critical@),
    ensures
        !initial_view(s, target, cfg).graceful.contains(s[i].pid),
        initial_view(s, target, cfg).candidates.contains(s[i].pid),
{
    lemma_shell_spared(s, target, cfg, i);
    lemma_candidate_selected(s, target, cfg, i);
}

/// Settling time between suspending a process and the last termination
/// attempt of an emergency.
pub const SETTLE_AFTER_EMERGENCY_SUSPEND_MS: u64 = 1000;

/// Where an emergency termination of one process stands.
#[derive(Debug, Clone, Copy, PartialEq, Eq, Structural)]
pub enum EmergencyStage {
    /// Ask the process to exit.
    Graceful,
    /// Force it to exit.
    Forced,
    /// Suspend its threads.
    Suspend,
    /// Give the suspension time to take hold.
    Settle,
    /// Force the suspended process to exit.
    FinalKill,
    /// Over: whether the process was terminated.
    Done(bool),
}

/// What the caller is to do next in an emergency termination.
#[derive(Debug, Clone, Copy, PartialEq, Eq, Structural)]
pub enum EmergencyAction {
    Terminate { forced: bool },
    Suspend,
    Wait { ms: u64 },
    Report(bool),
}

/// The action each emergency stage calls for.
pub open spec fn emergency_action_of(st: EmergencyStage) -> EmergencyAction {
    match st {
        EmergencyStage::Graceful => EmergencyAction::Terminate { forced: false },
        EmergencyStage::Forced => EmergencyAction::Terminate { forced: true },
        EmergencyStage::Suspend => EmergencyAction::Suspend,
        EmergencyStage::Settle => EmergencyAction::Wait { ms: SETTLE_AFTER_EMERGENCY_SUSPEND_MS },
        EmergencyStage::FinalKill => EmergencyAction::Terminate { forced: true },
        EmergencyStage::Done(t) => EmergencyAction::Report(t),
    }
}

/// The stage after the current action succeeded (`ok`) or failed.
pub open spec fn emergency_next(st: EmergencyStage, ok: bool) -> EmergencyStage {
    match st {
        EmergencyStage::Graceful => if ok {
            EmergencyStage::Done(true)
        } else {
            EmergencyStage::Forced
        },
        EmergencyStage::Forced => if ok {
            EmergencyStage::Done(true)
        } else {
            EmergencyStage::Suspend
        },
        EmergencyStage::Suspend => if ok {
            EmergencyStage::Settle
        } else {
            EmergencyStage::Done(false)
        },
        EmergencyStage::Settle => EmergencyStage::FinalKill,
        EmergencyStage::FinalKill => EmergencyStage::Done(ok),
        EmergencyStage::Done(t) => EmergencyStage::Done(t),
    }
}

/// Terminates one process by ever stronger means: gracefully, by force, and
/// by force again after suspending its threads.
pub struct EmergencyTermination {
    stage: EmergencyStage,
}

impl View for EmergencyTermination {
    type V = EmergencyStage;

    closed spec fn view(&self) -> EmergencyStage {
        self.stage
    }
}

impl EmergencyTermination {
    /// Starts with a graceful termination.
    pub fn new() -> (r: EmergencyTermination)
        ensures
            r@ == EmergencyStage::Graceful,
    {
        EmergencyTermination { stage: EmergencyStage::Graceful }
    }

    /// The action the current stage calls for.
    pub fn next_action(&self) -> (a: EmergencyAction)
        ensures
            a == emergency_action_of(self@),
    {
        match self.stage {
            EmergencyStage::Graceful => EmergencyAction::Terminate { forced: false },
            EmergencyStage::Forced => EmergencyAction::Terminate { forced: true },
            EmergencyStage::Suspend => EmergencyAction::Suspend,
            EmergencyStage::Settle => EmergencyAction::Wait { ms: SETTLE_AFTER_EMERGENCY_SUSPEND_MS },
            EmergencyStage::FinalKill => EmergencyAction::Terminate { forced: true },
            EmergencyStage::Done(t) => EmergencyAction::Report(t),
        }
    }

    /// Records whether the current action succeeded.
    pub fn advance(&mut self, ok: bool)
        ensures
            final(self)@ == emergency_next(old(self)@, ok),
    {
        self.stage = match self.stage {
            EmergencyStage::Graceful => if ok {
                EmergencyStage::Done(true)
            } else {
                EmergencyStage::Forced
            },
            EmergencyStage::Forced => if ok {
                EmergencyStage::Done(true)
            } else {
                EmergencyStage::Suspend
            },
            EmergencyStage::Suspend => if ok {
                EmergencyStage::Settle
            } else {
                EmergencyStage::Done(false)
            },
            EmergencyStage::Settle => EmergencyStage::FinalKill,
            EmergencyStage::FinalKill => EmergencyStage::Done(ok),
            EmergencyStage::Done(t) => EmergencyStage::Done(t),
        };
    }
}

/// What a hunt by name does once its targets are known.
#[derive(Debug, Clone, Copy, PartialEq, Eq, Structural)]
pub enum HuntDecision {
    /// Nothing matched.
    NothingFound,
    /// A dry run: report the targets, terminate none.
    ReportOnly,
    /// Several targets: ask before terminating them.
    Confirm,
    /// One target: terminate it.
    Terminate,
}

/// The decision for `targets` matches in a hunt.
pub open spec fn hunt_decision_of(targets: nat, dry_run: bool) -> HuntDecision {
    if targets == 0 {
        HuntDecision::NothingFound
    } else if dry_run {
        HuntDecision::ReportOnly
    } else if targets > 1 {
        HuntDecision::Confirm
    } else {
        HuntDecision::Terminate
    }
}

/// Decides what a hunt does with its matches.
pub fn hunt_decision(targets: usize, dry_run: bool) -> (r: HuntDecision)
    ensures
        r == hunt_decision_of(targets as nat, dry_run),
{
    if targets == 0 {
        HuntDecision::NothingFound
    } else if dry_run {
        HuntDecision::ReportOnly
    } else if targets > 1 {
        HuntDecision::Confirm
    } else {
        HuntDecision::Terminate
    }
}

} // verus!
