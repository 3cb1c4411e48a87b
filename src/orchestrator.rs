//! The deletion orchestrator: normalize, overwrite, remove, and fall back to
//! deferred deletion, invoking lock resolution where an overwrite or a
//! removal fails. Each intermediate failure is tolerated; only the failure of
//! the final fallback fails the file.

use vstd::prelude::*;

verus! {

/// The kinds of failure the eradication pipeline reports.
#[derive(Debug, Clone, Copy, PartialEq, Eq, Structural)]
pub enum ErrorKind {
    NotFound,
    IoFailure,
    /// A sharing violation: another process holds the file.
    Locked,
    /// The platform lacks the facility (process control, deferred deletion).
    UnsupportedPlatform,
    /// At least one file of a batch failed.
    PartialBatchFailure,
}

/// A concrete failure: its kind and a description.
#[derive(Debug)]
pub struct Failure {
    pub kind: ErrorKind,
    pub detail: String,
}

/// How one file ended.
#[derive(Debug)]
pub enum EradicationOutcome {
    /// Removed now.
    Removed,
    /// Scheduled for removal at the next restart.
    Deferred,
    /// Not removed; the last concrete error.
    Failed(Failure),
}

/// What a step of the pipeline came to.
#[derive(Debug)]
pub enum StepResult {
    /// The step succeeded (for lock resolution: the file is accessible).
    Succeeded,
    /// The step failed (for lock resolution: still locked, or unsupported).
    Failed(Failure),
}

/// Where the pipeline stands.
#[derive(Debug, Clone, Copy, PartialEq, Eq, Structural)]
pub enum EradicationStage {
    /// Phase A: clear restrictive attributes.
    Normalize,
    /// Phase B: the first overwrite.
    Overwrite,
    /// Lock resolution after the first overwrite failed.
    ResolveAfterOverwrite,
    /// Phase B: the one retry of the overwrite.
    RetryOverwrite,
    /// Phase C: remove the file.
    Remove,
    /// Lock resolution after the removal failed.
    ResolveAfterRemove,
    /// Phase C: the one retry of the removal.
    RetryRemove,
    /// Phase D: schedule deletion at the next restart.
    ScheduleDeferred,
    /// The outcome is known.
    Finished,
}

/// What the caller is to do next.
#[derive(Debug, Clone, Copy, PartialEq, Eq, Structural)]
pub enum EradicationAction {
    NormalizeAttributes,
    /// Run the overwrite engine with the chosen plan.
    Overwrite,
    /// Run lock resolution on the file.
    ResolveLocks,
    RemoveFile,
    ScheduleDeferred,
    /// Nothing more to do: take the outcome.
    Finish,
}

/// The action each stage calls for.
pub open spec fn action_of(st: EradicationStage) -> EradicationAction {
    match st {
        EradicationStage::Normalize => EradicationAction::NormalizeAttributes,
        EradicationStage::Overwrite => EradicationAction::Overwrite,
        EradicationStage::ResolveAfterOverwrite => EradicationAction::ResolveLocks,
        EradicationStage::RetryOverwrite => EradicationAction::Overwrite,
        EradicationStage::Remove => EradicationAction::RemoveFile,
        EradicationStage::ResolveAfterRemove => EradicationAction::ResolveLocks,
        EradicationStage::RetryRemove => EradicationAction::RemoveFile,
        EradicationStage::ScheduleDeferred => EradicationAction::ScheduleDeferred,
        EradicationStage::Finished => EradicationAction::Finish,
    }
}

/// The action changes the file system (or the processes that hold the file).
pub open spec fn touches_filesystem(a: EradicationAction) -> bool {
    a != EradicationAction::Finish
}

/// The abstract state of one file's eradication.
pub struct EradicationView {
    pub stage: EradicationStage,
    /// Lock resolution ran in this call without freeing the file.
    pub locks_exhausted: bool,
    /// The last concrete error met.
    pub last_error: Option<Failure>,
    pub outcome: Option<EradicationOutcome>,
}

/// The state a call on an existing file of `size` bytes starts in: an empty
/// file has nothing to overwrite and goes straight to removal.
pub open spec fn start_view(size: u64) -> EradicationView {
    EradicationView {
        stage: if size == 0 {
            EradicationStage::Remove
        } else {
            EradicationStage::Normalize
        },
        locks_exhausted: false,
        last_error: None,
        outcome: None,
    }
}

/// The outcome is a failure.
pub open spec fn is_failure(o: Option<EradicationOutcome>) -> bool {
    o matches Some(EradicationOutcome::Failed(_))
}

/// The outcome is a `NotFound` failure naming `path`.
pub open spec fn not_found(o: Option<EradicationOutcome>, path: Seq<char>) -> bool {
    o matches Some(EradicationOutcome::Failed(f)) && f.kind == ErrorKind::NotFound && f.detail@ == path
}

/// The error surfaced when deferred deletion fails with `f`: `f` itself,
/// unless the platform has no such facility, in which case the last removal
/// error.
pub open spec fn surfaced(f: Failure, last: Option<Failure>) -> Failure {
    if f.kind == ErrorKind::UnsupportedPlatform && last is Some {
        last->Some_0
    } else {
        f
    }
}

/// The state after the current step came to `r`.
pub open spec fn erad_next(v: EradicationView, r: StepResult) -> EradicationView {
    match v.stage {
        EradicationStage::Normalize => EradicationView { stage: EradicationStage::Overwrite, ..v },
        EradicationStage::Overwrite => match r {
            StepResult::Succeeded => EradicationView { stage: EradicationStage::Remove, ..v },
            StepResult::Failed(f) => EradicationView {
                stage: EradicationStage::ResolveAfterOverwrite,
                last_error: Some(f),
                ..v
            },
        },
        EradicationStage::ResolveAfterOverwrite => EradicationView {
            stage: EradicationStage::RetryOverwrite,
            locks_exhausted: r is Failed,
            ..v
        },
        EradicationStage::RetryOverwrite => match r {
            StepResult::Succeeded => EradicationView { stage: EradicationStage::Remove, ..v },
            StepResult::Failed(f) => EradicationView {
                stage: EradicationStage::Remove,
                last_error: Some(f),
                ..v
            },
        },
        EradicationStage::Remove => match r {
            StepResult::Succeeded => EradicationView {
                stage: EradicationStage::Finished,
                outcome: Some(EradicationOutcome::Removed),
                ..v
            },
            StepResult::Failed(f) => EradicationView {
                stage: if v.locks_exhausted {
                    EradicationStage::RetryRemove
                } else {
                    EradicationStage::ResolveAfterRemove
                },
                last_error: Some(f),
                ..v
            },
        },
        EradicationStage::ResolveAfterRemove => EradicationView {
            stage: EradicationStage::RetryRemove,
            locks_exhausted: r is Failed,
            ..v
        },
        EradicationStage::RetryRemove => match r {
            StepResult::Succeeded => EradicationView {
                stage: EradicationStage::Finished,
                outcome: Some(EradicationOutcome::Removed),
                ..v
            },
            StepResult::Failed(f) => EradicationView {
                stage: EradicationStage::ScheduleDeferred,
                last_error: Some(f),
                ..v
            },
        },
        EradicationStage::ScheduleDeferred => match r {
            StepResult::Succeeded => EradicationView {
                stage: EradicationStage::Finished,
                outcome: Some(EradicationOutcome::Deferred),
                ..v
            },
            StepResult::Failed(f) => EradicationView {
                stage: EradicationStage::Finished,
                outcome: Some(EradicationOutcome::Failed(surfaced(f, v.last_error))),
                last_error: None,
                ..v
            },
        },
        EradicationStage::Finished => v,
    }
}

/// The eradication of one file.
pub struct Eradication {
    stage: EradicationStage,
    locks_exhausted: bool,
    last_error: Option<Failure>,
    outcome: Option<EradicationOutcome>,
}

impl View for Eradication {
    type V = EradicationView;

    closed spec fn view(&self) -> EradicationView {
        EradicationView {
            stage: self.stage,
            locks_exhausted: self.locks_exhausted,
            last_error: self.last_error,
            outcome: self.outcome,
        }
    }
}

impl Eradication {
    /// Starts the eradication of `path`, given what the existence check and
    /// the metadata read found. A missing file fails at once with `NotFound`;
    /// an empty one goes straight to removal.
    pub fn start(path: &str, exists: bool, size: u64) -> (r: Eradication)
        ensures
            exists ==> r@ == start_view(size),
            !exists ==> r@.stage == EradicationStage::Finished && not_found(r@.outcome, path@),
    {
        if !exists {
            let f = Failure { kind: ErrorKind::NotFound, detail: path.to_owned() };
            Eradication {
                stage: EradicationStage::Finished,
                locks_exhausted: false,
                last_error: None,
                outcome: Some(EradicationOutcome::Failed(f)),
            }
        } else {
            Eradication {
                stage: if size == 0 {
                    EradicationStage::Remove
                } else {
                    EradicationStage::Normalize
                },
                locks_exhausted: false,
                last_error: None,
                outcome: None,
            }
        }
    }

    /// The current stage.
    pub fn stage(&self) -> (r: EradicationStage)
        ensures
            r == self@.stage,
    {
        self.stage
    }

    /// The action the current stage calls for.
    pub fn next_action(&self) -> (a: EradicationAction)
        ensures
            a == action_of(self@.stage),
    {
        match self.stage {
            EradicationStage::Normalize => EradicationAction::NormalizeAttributes,
            EradicationStage::Overwrite => EradicationAction::Overwrite,
            EradicationStage::ResolveAfterOverwrite => EradicationAction::ResolveLocks,
            EradicationStage::RetryOverwrite => EradicationAction::Overwrite,
            EradicationStage::Remove => EradicationAction::RemoveFile,
            EradicationStage::ResolveAfterRemove => EradicationAction::ResolveLocks,
            EradicationStage::RetryRemove => EradicationAction::RemoveFile,
            EradicationStage::ScheduleDeferred => EradicationAction::ScheduleDeferred,
            EradicationStage::Finished => EradicationAction::Finish,
        }
    }

    /// Records what the current step came to.
    pub fn advance(&mut self, r: StepResult)
        ensures
            final(self)@ == erad_next(old(self)@, r),
    {
        match self.stage {
            EradicationStage::Normalize => {
                self.stage = EradicationStage::Overwrite;
            },
            EradicationStage::Overwrite => match r {
                StepResult::Succeeded => {
                    self.stage = EradicationStage::Remove;
                },
                StepResult::Failed(f) => {
                    self.stage = EradicationStage::ResolveAfterOverwrite;
                    self.last_error = Some(f);
                },
            },
            EradicationStage::ResolveAfterOverwrite => {
                self.locks_exhausted = match r {
                    StepResult::Succeeded => false,
                    StepResult::Failed(_) => true,
                };
                self.stage = EradicationStage::RetryOverwrite;
            },
            EradicationStage::RetryOverwrite => {
                match r {
                    StepResult::Succeeded => {},
                    StepResult::Failed(f) => {
                        self.last_error = Some(f);
                    },
                }
                self.stage = EradicationStage::Remove;
            },
            EradicationStage::Remove => match r {
                StepResult::Succeeded => {
                    self.stage = EradicationStage::Finished;
                    self.outcome = Some(EradicationOutcome::Removed);
                },
                StepResult::Failed(f) => {
                    self.stage = if self.locks_exhausted {
                        EradicationStage::RetryRemove
                    } else {
                        EradicationStage::ResolveAfterRemove
                    };
                    self.last_error = Some(f);
                },
            },
            EradicationStage::ResolveAfterRemove => {
                self.locks_exhausted = match r {
                    StepResult::Succeeded => false,
                    StepResult::Failed(_) => true,
                };
                self.stage = EradicationStage::RetryRemove;
            },
            EradicationStage::RetryRemove => match r {
                StepResult::Succeeded => {
                    self.stage = EradicationStage::Finished;
                    self.outcome = Some(EradicationOutcome::Removed);
                },
                StepResult::Failed(f) => {
                    self.stage = EradicationStage::ScheduleDeferred;
                    self.last_error = Some(f);
                },
            },
            EradicationStage::ScheduleDeferred => match r {
                StepResult::Succeeded => {
                    self.stage = EradicationStage::Finished;
                    self.outcome = Some(EradicationOutcome::Deferred);
                },
                StepResult::Failed(f) => {
                    let last = self.last_error.take();
                    let shown = match last {
                        Some(l) => if f.kind == ErrorKind::UnsupportedPlatform {
                            l
                        } else {
                            f
                        },
                        None => f,
                    };
                    self.stage = EradicationStage::Finished;
                    self.outcome = Some(EradicationOutcome::Failed(shown));
                },
            },
            EradicationStage::Finished => {},
        }
    }

    /// The outcome, once the pipeline has finished.
    pub fn outcome(&self) -> (r: Option<&EradicationOutcome>)
        ensures
            match r {
                Some(o) => self@.outcome == Some(*o),
                None => self@.outcome is None,
            },
    {
        self.outcome.as_ref()
    }

    /// Gives up the outcome, once the pipeline has finished.
    pub fn into_outcome(self) -> (r: Option<EradicationOutcome>)
        ensures
            r == self@.outcome,
    {
        self.outcome
    }
}

/// A finished call is inert: it asks for no step that touches the file
/// system, and nothing reported back changes it. With `start`, a missing file
/// thus fails with `NotFound` and is never written.
pub proof fn lemma_finished_untouched(v: EradicationView, r: StepResult)
    requires
        v.stage == EradicationStage::Finished,
    ensures
        !touches_filesystem(action_of(v.stage)),
        erad_next(v, r) == v,
{
}

/// The position of a stage in the pipeline.
pub open spec fn stage_rank(st: EradicationStage) -> int {
    match st {
        EradicationStage::Normalize => 0,
        EradicationStage::Overwrite => 1,
        EradicationStage::ResolveAfterOverwrite => 2,
        EradicationStage::RetryOverwrite => 3,
        EradicationStage::Remove => 4,
        EradicationStage::ResolveAfterRemove => 5,
        EradicationStage::RetryRemove => 6,
        EradicationStage::ScheduleDeferred => 7,
        EradicationStage::Finished => 8,
    }
}

/// Every step moves the pipeline strictly forward until it has finished, and
/// a failure can only be the outcome after deferred deletion failed.
pub proof fn lemma_pipeline_forward(v: EradicationView, r: StepResult)
    ensures
        v.stage != EradicationStage::Finished ==> stage_rank(erad_next(v, r).stage) > stage_rank(v.stage),
        v.stage != EradicationStage::Finished && v.outcome is None && is_failure(erad_next(v, r).outcome)
            ==> v.stage == EradicationStage::ScheduleDeferred,
{
}

} // verus!
