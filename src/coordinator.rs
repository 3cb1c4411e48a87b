//! Bounded retries of the whole pipeline for one file, and batches of files
//! whose failures are collected without undoing the successes.

use vstd::prelude::*;
use crate::orchestrator::{ErrorKind, EradicationOutcome, Failure};
use crate::text::views_of;

verus! {

/// The delay unit between attempts: attempt `k` waits `k` times this long.
pub const BASE_DELAY_MS: u64 = 100;

/// The attempts each file of a batch gets.
pub const BATCH_ATTEMPTS: u32 = 3;

/// What the caller is to do next.
#[derive(Debug, Clone, Copy, PartialEq, Eq, Structural)]
pub enum RetryStep {
    /// Wait this long, then run the pipeline on the file once more.
    Run { delay_ms: u64 },
    /// No more attempts: take the result.
    Stop,
}

/// The abstract state of the retries for one file.
pub struct RetryView {
    /// Failed attempts so far.
    pub attempts: nat,
    pub max_attempts: nat,
    pub last_error: Option<Failure>,
    /// The result, once it is known.
    pub result: Option<EradicationOutcome>,
}

/// The step the state calls for.
pub open spec fn retry_step_of(v: RetryView) -> RetryStep {
    if v.result is Some {
        RetryStep::Stop
    } else {
        RetryStep::Run { delay_ms: (v.attempts * BASE_DELAY_MS) as u64 }
    }
}

/// The state after an attempt came to `o`.
pub open spec fn retry_next(v: RetryView, o: EradicationOutcome) -> RetryView {
    if v.result is Some {
        v
    } else {
        match o {
            EradicationOutcome::Failed(f) => if v.attempts + 1 >= v.max_attempts {
                RetryView {
                    attempts: v.attempts + 1,
                    last_error: None,
                    result: Some(EradicationOutcome::Failed(f)),
                    ..v
                }
            } else {
                RetryView { attempts: v.attempts + 1, last_error: Some(f), ..v }
            },
            _ => RetryView { result: Some(o), ..v },
        }
    }
}

/// The invariant of the retries.
pub open spec fn retry_wf(v: RetryView) -> bool {
    &&& v.attempts <= v.max_attempts
    &&& v.max_attempts <= u32::MAX
    &&& v.result is None ==> v.attempts < v.max_attempts
}

/// Runs the pipeline on one file up to a number of times.
pub struct RetryContext {
    attempts: u32,
    max_attempts: u32,
    last_error: Option<Failure>,
    result: Option<EradicationOutcome>,
}

impl View for RetryContext {
    type V = RetryView;

    closed spec fn view(&self) -> RetryView {
        RetryView {
            attempts: self.attempts as nat,
            max_attempts: self.max_attempts as nat,
            last_error: self.last_error,
            result: self.result,
        }
    }
}

impl RetryContext {
    /// Allows up to `max_attempts` runs. With none allowed, the result is a
    /// failure at once.
    pub fn new(max_attempts: u32) -> (r: RetryContext)
        ensures
            retry_wf(r@),
            r@.attempts == 0,
            r@.max_attempts == max_attempts,
            r@.last_error is None,
            max_attempts > 0 ==> r@.result is None,
            max_attempts == 0 ==> (r@.result matches Some(EradicationOutcome::Failed(f)) && f.kind
                == ErrorKind::IoFailure && f.detail@ == "Unknown error"@),
    {
        RetryContext {
            attempts: 0,
            max_attempts,
            last_error: None,
            result: if max_attempts == 0 {
                Some(
                    EradicationOutcome::Failed(
                        Failure { kind: ErrorKind::IoFailure, detail: "Unknown error".to_owned() },
                    ),
                )
            } else {
                None
            },
        }
    }

    /// What to do next.
    pub fn next_step(&self) -> (r: RetryStep)
        requires
            retry_wf(self@),
        ensures
            r == retry_step_of(self@),
    {
        if self.result.is_some() {
            RetryStep::Stop
        } else {
            assert(self.attempts * BASE_DELAY_MS <= u64::MAX) by (nonlinear_arith)
                requires
                    self.attempts <= u32::MAX,
                    BASE_DELAY_MS == 100,
            ;
            RetryStep::Run { delay_ms: self.attempts as u64 * BASE_DELAY_MS }
        }
    }

    /// Records how an attempt ended.
    pub fn record(&mut self, o: EradicationOutcome)
        requires
            retry_wf(old(self)@),
        ensures
            retry_wf(final(self)@),
            final(self)@ == retry_next(old(self)@, o),
    {
        if self.result.is_some() {
            return ;
        }
        match o {
            EradicationOutcome::Failed(f) => {
                self.attempts = self.attempts + 1;
                if self.attempts >= self.max_attempts {
                    self.last_error = None;
                    self.result = Some(EradicationOutcome::Failed(f));
                } else {
                    self.last_error = Some(f);
                }
            },
            _ => {
                self.result = Some(o);
            },
        }
    }

    /// The result, once no attempt is left to make.
    pub fn into_result(self) -> (r: Option<EradicationOutcome>)
        ensures
            r == self@.result,
    {
        self.result
    }
}

/// Feeds attempt results to the retries until they stop or the results run
/// out; gives the final state and how many attempts were run.
pub open spec fn drive(v: RetryView, outs: Seq<EradicationOutcome>) -> (RetryView, nat)
    decreases outs.len(),
{
    if v.result is Some || outs.len() == 0 {
        (v, 0)
    } else {
        let (w, n) = drive(retry_next(v, outs[0]), outs.subrange(1, outs.len() as int));
        (w, n + 1)
    }
}

/// Against a target on which every attempt fails, the retries run the
/// pipeline exactly as many times as remain allowed, and end with the error
/// of the last attempt.
pub proof fn lemma_retry_exhausts(v: RetryView, outs: Seq<EradicationOutcome>)
    requires
        retry_wf(v),
        v.result is None,
        outs.len() >= v.max_attempts - v.attempts,
        forall|i: int| 0 <= i < outs.len() ==> #[trigger] outs[i] is Failed,
    ensures
        drive(v, outs).1 == v.max_attempts - v.attempts,
        drive(v, outs).0.result == Some(outs[v.max_attempts - v.attempts - 1]),
    decreases outs.len(),
{
    let w = retry_next(v, outs[0]);
    let rest = outs.subrange(1, outs.len() as int);
    assert(outs[0] is Failed);
    if v.attempts + 1 < v.max_attempts {
        assert forall|i: int| 0 <= i < rest.len() implies #[trigger] rest[i] is Failed by {
            assert(rest[i] == outs[i + 1]);
        }
        lemma_retry_exhausts(w, rest);
        assert(rest[w.max_attempts - w.attempts - 1] == outs[v.max_attempts - v.attempts - 1]);
    } else {
        assert(drive(w, rest) == (w, 0nat));
    }
}

/// One file of a batch and how it ended.
#[derive(Debug)]
pub struct BatchEntry {
    pub path: String,
    pub outcome: EradicationOutcome,
}

/// The summary failure of a batch: the paths that failed, in order.
#[derive(Debug)]
pub struct BatchFailure {
    pub failed: Vec<String>,
}

impl BatchFailure {
    /// The kind of this failure.
    pub fn kind(&self) -> (r: ErrorKind)
        ensures
            r == ErrorKind::PartialBatchFailure,
    {
        ErrorKind::PartialBatchFailure
    }
}

/// The entry ended in failure.
pub open spec fn entry_failed(e: BatchEntry) -> bool {
    e.outcome is Failed
}

/// The paths of the failed entries, in order.
pub open spec fn failed_paths_of(entries: Seq<BatchEntry>) -> Seq<Seq<char>>
    decreases entries.len(),
{
    if entries.len() == 0 {
        Seq::empty()
    } else if entry_failed(entries.last()) {
        failed_paths_of(entries.drop_last()).push(entries.last().path@)
    } else {
        failed_paths_of(entries.drop_last())
    }
}

/// The outcomes of a batch, in the order the files were processed.
pub struct BatchReport {
    entries: Vec<BatchEntry>,
}

impl View for BatchReport {
    type V = Seq<BatchEntry>;

    closed spec fn view(&self) -> Seq<BatchEntry> {
        self.entries@
    }
}

impl BatchReport {
    /// A report with no file in it.
    pub fn new() -> (r: BatchReport)
        ensures
            r@.len() == 0,
    {
        BatchReport { entries: Vec::new() }
    }

    /// Adds the outcome of the next file; what earlier files came to stays
    /// as it was.
    pub fn record(&mut self, path: String, outcome: EradicationOutcome)
        ensures
            final(self)@ == old(self)@.push(BatchEntry { path, outcome }),
            forall|i: int| 0 <= i < old(self)@.len() ==> #[trigger] final(self)@[i] == old(self)@[i],
    {
        self.entries.push(BatchEntry { path, outcome });
    }

    /// Every file and its outcome.
    pub fn entries(&self) -> (r: &Vec<BatchEntry>)
        ensures
            r@ == self@,
    {
        &self.entries
    }

    /// How many files failed.
    pub fn failure_count(&self) -> (r: usize)
        ensures
            r == failed_paths_of(self@).len(),
    {
        let mut n: usize = 0;
        let mut i: usize = 0;
        while i < self.entries.len()
            invariant
                i <= self@.len(),
                n <= i,
                n == failed_paths_of(self@.subrange(0, i as int)).len(),
            decreases self@.len() - i,
        {
            assert(self@.subrange(0, i + 1).drop_last() =~= self@.subrange(0, i as int));
            match &self.entries[i].outcome {
                EradicationOutcome::Failed(_) => {
                    n = n + 1;
                },
                _ => {},
            }
            i = i + 1;
        }
        assert(self@.subrange(0, self@.len() as int) =~= self@);
        n
    }

    /// Success when every file succeeded (at once or deferred); otherwise a
    /// failure naming exactly the files that failed.
    pub fn summary(&self) -> (r: Result<(), BatchFailure>)
        ensures
            r is Ok <==> failed_paths_of(self@).len() == 0,
            r matches Err(bf) ==> views_of(bf.failed@) == failed_paths_of(self@),
    {
        let mut failed: Vec<String> = Vec::new();
        let mut i: usize = 0;
        while i < self.entries.len()
            invariant
                i <= self@.len(),
                views_of(failed@) == failed_paths_of(self@.subrange(0, i as int)),
            decreases self@.len() - i,
        {
            assert(self@.subrange(0, i + 1).drop_last() =~= self@.subrange(0, i as int));
            let e = &self.entries[i];
            match &e.outcome {
                EradicationOutcome::Failed(_) => {
                    let p = e.path.clone();
                    failed.push(p);
                    assert(views_of(failed@) =~= failed_paths_of(self@.subrange(0, i as int)).push(
                        e.path@,
                    ));
                },
                _ => {},
            }
            i = i + 1;
        }
        assert(self@.subrange(0, self@.len() as int) =~= self@);
        if failed.len() == 0 {
            Ok(())
        } else {
            Err(BatchFailure { failed })
        }
    }
}

/// A later file's outcome never changes whether an earlier file counts as
/// failed: recording an entry adds its path to the failures if and only if it
/// failed, and leaves the failures before it as they were.
pub proof fn lemma_failures_accumulate(entries: Seq<BatchEntry>, e: BatchEntry)
    ensures
        entry_failed(e) ==> failed_paths_of(entries.push(e)) == failed_paths_of(entries).push(e.path@),
        !entry_failed(e) ==> failed_paths_of(entries.push(e)) == failed_paths_of(entries),
{
    assert(entries.push(e).drop_last() =~= entries);
}

} // verus!
