use defuscrypt::coordinator::{BatchReport, RetryContext, RetryStep, BATCH_ATTEMPTS};
use defuscrypt::orchestrator::{
    EradicationAction, EradicationOutcome, EradicationStage, Eradication, ErrorKind, Failure, StepResult,
};

fn fail(kind: ErrorKind, detail: &str) -> StepResult {
    StepResult::Failed(Failure { kind, detail: detail.to_string() })
}

/// Drives one eradication, answering each action from `answers` in order.
fn drive(mut e: Eradication, answers: Vec<StepResult>) -> (Vec<EradicationAction>, Option<EradicationOutcome>) {
    let mut seen = Vec::new();
    let mut answers = answers.into_iter();
    loop {
        let a = e.next_action();
        seen.push(a);
        if a == EradicationAction::Finish {
            return (seen, e.into_outcome());
        }
        e.advance(answers.next().expect("an answer for every step"));
    }
}

#[test]
fn missing_file_fails_with_not_found_and_no_writes() {
    let e = Eradication::start("C:\\gone.txt", false, 0);
    assert_eq!(e.stage(), EradicationStage::Finished);
    let (seen, outcome) = drive(e, vec![]);
    assert_eq!(seen, vec![EradicationAction::Finish]);
    match outcome {
        Some(EradicationOutcome::Failed(f)) => {
            assert_eq!(f.kind, ErrorKind::NotFound);
            assert_eq!(f.detail, "C:\\gone.txt");
        }
        other => panic!("unexpected {:?}", other),
    }
}

#[test]
fn unlocked_file_is_normalized_overwritten_and_removed() {
    let e = Eradication::start("a", true, 10);
    let (seen, outcome) = drive(e, vec![StepResult::Succeeded, StepResult::Succeeded, StepResult::Succeeded]);
    assert_eq!(
        seen,
        vec![
            EradicationAction::NormalizeAttributes,
            EradicationAction::Overwrite,
            EradicationAction::RemoveFile,
            EradicationAction::Finish
        ]
    );
    assert!(matches!(outcome, Some(EradicationOutcome::Removed)));
}

#[test]
fn empty_file_goes_straight_to_removal() {
    let e = Eradication::start("a", true, 0);
    assert_eq!(e.stage(), EradicationStage::Remove);
    let (seen, outcome) = drive(e, vec![StepResult::Succeeded]);
    assert_eq!(seen, vec![EradicationAction::RemoveFile, EradicationAction::Finish]);
    assert!(matches!(outcome, Some(EradicationOutcome::Removed)));
}

#[test]
fn overwrite_failure_resolves_locks_and_retries_once() {
    let e = Eradication::start("a", true, 10);
    let (seen, outcome) = drive(
        e,
        vec![
            StepResult::Succeeded,
            fail(ErrorKind::Locked, "sharing violation"),
            StepResult::Succeeded,
            fail(ErrorKind::Locked, "still"),
            StepResult::Succeeded,
        ],
    );
    assert_eq!(
        seen,
        vec![
            EradicationAction::NormalizeAttributes,
            EradicationAction::Overwrite,
            EradicationAction::ResolveLocks,
            EradicationAction::Overwrite,
            EradicationAction::RemoveFile,
            EradicationAction::Finish
        ]
    );
    assert!(matches!(outcome, Some(EradicationOutcome::Removed)));
}

#[test]
fn exhausted_lock_resolution_is_not_repeated_for_removal() {
    let e = Eradication::start("a", true, 10);
    let (seen, outcome) = drive(
        e,
        vec![
            StepResult::Succeeded,
            fail(ErrorKind::Locked, "w1"),
            fail(ErrorKind::Locked, "still locked"),
            fail(ErrorKind::Locked, "w2"),
            fail(ErrorKind::IoFailure, "r1"),
            fail(ErrorKind::IoFailure, "r2"),
            StepResult::Succeeded,
        ],
    );
    assert_eq!(
        seen,
        vec![
            EradicationAction::NormalizeAttributes,
            EradicationAction::Overwrite,
            EradicationAction::ResolveLocks,
            EradicationAction::Overwrite,
            EradicationAction::RemoveFile,
            EradicationAction::RemoveFile,
            EradicationAction::ScheduleDeferred,
            EradicationAction::Finish
        ]
    );
    assert!(matches!(outcome, Some(EradicationOutcome::Deferred)));
}

#[test]
fn removal_failure_resolves_locks_then_retries() {
    let e = Eradication::start("a", true, 0);
    let (seen, outcome) =
        drive(e, vec![fail(ErrorKind::Locked, "r1"), StepResult::Succeeded, StepResult::Succeeded]);
    assert_eq!(
        seen,
        vec![
            EradicationAction::RemoveFile,
            EradicationAction::ResolveLocks,
            EradicationAction::RemoveFile,
            EradicationAction::Finish
        ]
    );
    assert!(matches!(outcome, Some(EradicationOutcome::Removed)));
}

#[test]
fn failed_deferral_surfaces_its_error() {
    let e = Eradication::start("a", true, 0);
    let (_, outcome) = drive(
        e,
        vec![fail(ErrorKind::Locked, "r1"), StepResult::Succeeded, fail(ErrorKind::Locked, "r2"), fail(ErrorKind::IoFailure, "schedule refused")],
    );
    match outcome {
        Some(EradicationOutcome::Failed(f)) => {
            assert_eq!(f.kind, ErrorKind::IoFailure);
            assert_eq!(f.detail, "schedule refused");
        }
        other => panic!("unexpected {:?}", other),
    }
}

#[test]
fn unsupported_deferral_surfaces_the_removal_error() {
    let e = Eradication::start("a", true, 0);
    let (_, outcome) = drive(
        e,
        vec![
            fail(ErrorKind::Locked, "r1"),
            fail(ErrorKind::UnsupportedPlatform, "no process control"),
            fail(ErrorKind::Locked, "r2"),
            fail(ErrorKind::UnsupportedPlatform, "no deferred deletion"),
        ],
    );
    match outcome {
        Some(EradicationOutcome::Failed(f)) => {
            assert_eq!(f.kind, ErrorKind::Locked);
            assert_eq!(f.detail, "r2");
        }
        other => panic!("unexpected {:?}", other),
    }
}

#[test]
fn retry_against_a_target_that_always_fails() {
    let mut ctx = RetryContext::new(3);
    let mut calls = 0u32;
    let mut delays = Vec::new();
    while let RetryStep::Run { delay_ms } = ctx.next_step() {
        calls += 1;
        delays.push(delay_ms);
        ctx.record(EradicationOutcome::Failed(Failure { kind: ErrorKind::Locked, detail: format!("attempt {}", calls) }));
    }
    assert_eq!(calls, 3);
    assert_eq!(delays, vec![0, 100, 200]);
    match ctx.into_result() {
        Some(EradicationOutcome::Failed(f)) => assert_eq!(f.detail, "attempt 3"),
        other => panic!("unexpected {:?}", other),
    }
}

#[test]
fn retry_stops_at_the_first_success() {
    let mut ctx = RetryContext::new(3);
    assert_eq!(ctx.next_step(), RetryStep::Run { delay_ms: 0 });
    ctx.record(EradicationOutcome::Failed(Failure { kind: ErrorKind::IoFailure, detail: "x".to_string() }));
    assert_eq!(ctx.next_step(), RetryStep::Run { delay_ms: 100 });
    ctx.record(EradicationOutcome::Deferred);
    assert_eq!(ctx.next_step(), RetryStep::Stop);
    assert!(matches!(ctx.into_result(), Some(EradicationOutcome::Deferred)));
}

#[test]
fn retry_with_no_attempts_fails_at_once() {
    let ctx = RetryContext::new(0);
    assert_eq!(ctx.next_step(), RetryStep::Stop);
    match ctx.into_result() {
        Some(EradicationOutcome::Failed(f)) => assert_eq!(f.detail, "Unknown error"),
        other => panic!("unexpected {:?}", other),
    }
}

#[test]
fn batch_keeps_success_beside_failure() {
    let mut report = BatchReport::new();
    assert!(report.summary().is_ok());
    report.record("A".to_string(), EradicationOutcome::Removed);
    let mut ctx = RetryContext::new(BATCH_ATTEMPTS);
    while let RetryStep::Run { .. } = ctx.next_step() {
        ctx.record(EradicationOutcome::Failed(Failure { kind: ErrorKind::Locked, detail: "B is held".to_string() }));
    }
    report.record("B".to_string(), ctx.into_result().unwrap());
    let entries = report.entries();
    assert_eq!(entries.len(), 2);
    assert_eq!(entries[0].path, "A");
    assert!(matches!(entries[0].outcome, EradicationOutcome::Removed));
    assert!(matches!(entries[1].outcome, EradicationOutcome::Failed(_)));
    assert_eq!(report.failure_count(), 1);
    let failure = report.summary().unwrap_err();
    assert_eq!(failure.failed, vec!["B".to_string()]);
    assert_eq!(failure.kind(), ErrorKind::PartialBatchFailure);
}

#[test]
fn batch_of_successes_succeeds() {
    let mut report = BatchReport::new();
    report.record("A".to_string(), EradicationOutcome::Removed);
    report.record("B".to_string(), EradicationOutcome::Deferred);
    assert!(report.summary().is_ok());
    assert_eq!(report.failure_count(), 0);
}
