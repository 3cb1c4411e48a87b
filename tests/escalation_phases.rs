use defuscrypt::escalation::{
    hunt_decision, EmergencyAction, EmergencyTermination, EscalationAction, EscalationStage,
    HuntDecision, LockOutcome, LockResolver,
};
use defuscrypt::process::{LockConfig, ProcessInfo};

fn proc(pid: u32, name: &str) -> ProcessInfo {
    ProcessInfo { pid, name: name.to_string(), path: None, parent_pid: 0 }
}

#[derive(Debug, PartialEq)]
enum Seen {
    Normalize,
    Suspend(Vec<u32>),
    Probe(u64),
    Terminate(Vec<u32>, bool),
    Report(LockOutcome),
}

fn run(resolver: &mut LockResolver, probes: &[bool]) -> Vec<Seen> {
    let mut seen = Vec::new();
    let mut probe = probes.iter();
    loop {
        let (s, accessible) = match resolver.next_action() {
            EscalationAction::NormalizeAttributes => (Seen::Normalize, false),
            EscalationAction::Suspend { pids } => (Seen::Suspend(pids), false),
            EscalationAction::Probe { settle_ms } => (Seen::Probe(settle_ms), *probe.next().unwrap()),
            EscalationAction::Terminate { pids, forced } => (Seen::Terminate(pids, forced), false),
            EscalationAction::Report(o) => {
                seen.push(Seen::Report(o));
                return seen;
            }
        };
        seen.push(s);
        resolver.advance(accessible);
    }
}

fn snapshot() -> Vec<ProcessInfo> {
    vec![proc(1, "explorer.exe"), proc(2, "WINWORD.EXE"), proc(3, "csrss.exe"), proc(4, "game.exe")]
}

#[test]
fn escalation_runs_every_phase_in_order() {
    let cfg = LockConfig::windows_desktop();
    let mut r = LockResolver::new(&snapshot(), "C:\\doc.docx", &cfg);
    assert_eq!(r.stage(), EscalationStage::Normalize);
    let seen = run(&mut r, &[false, false, false]);
    assert_eq!(
        seen,
        vec![
            Seen::Normalize,
            Seen::Suspend(vec![1, 2]),
            Seen::Probe(500),
            Seen::Terminate(vec![2], false),
            Seen::Probe(1000),
            Seen::Terminate(vec![1, 2], true),
            Seen::Probe(1500),
            Seen::Report(LockOutcome::StillLocked),
        ]
    );
    assert_eq!(r.outcome(), Some(LockOutcome::StillLocked));
}

#[test]
fn escalation_stops_when_suspension_frees_the_file() {
    let cfg = LockConfig::windows_desktop();
    let mut r = LockResolver::new(&snapshot(), "C:\\doc.docx", &cfg);
    let seen = run(&mut r, &[true]);
    assert_eq!(
        seen,
        vec![Seen::Normalize, Seen::Suspend(vec![1, 2]), Seen::Probe(500), Seen::Report(LockOutcome::Neutralized)]
    );
}

#[test]
fn escalation_stops_after_graceful_termination() {
    let cfg = LockConfig::windows_desktop();
    let mut r = LockResolver::new(&snapshot(), "C:\\doc.docx", &cfg);
    let seen = run(&mut r, &[false, true]);
    assert_eq!(seen.last(), Some(&Seen::Report(LockOutcome::Neutralized)));
    assert!(!seen.contains(&Seen::Terminate(vec![1, 2], true)));
}

#[test]
fn final_probe_success_neutralizes() {
    let cfg = LockConfig::windows_desktop();
    let mut r = LockResolver::new(&snapshot(), "C:\\doc.docx", &cfg);
    let seen = run(&mut r, &[false, false, true]);
    assert_eq!(seen.last(), Some(&Seen::Report(LockOutcome::Neutralized)));
}

#[test]
fn no_candidates_means_no_escalation() {
    let cfg = LockConfig::windows_desktop();
    let snap = vec![proc(7, "game.exe"), proc(8, "csrss.exe")];
    let mut r = LockResolver::new(&snap, "C:\\doc.docx", &cfg);
    let seen = run(&mut r, &[]);
    assert_eq!(seen, vec![Seen::Normalize, Seen::Report(LockOutcome::NoCandidates)]);
    assert_eq!(r.outcome(), Some(LockOutcome::NoCandidates));
}

#[test]
fn emergency_escalates_to_suspension() {
    let mut e = EmergencyTermination::new();
    assert_eq!(e.next_action(), EmergencyAction::Terminate { forced: false });
    e.advance(false);
    assert_eq!(e.next_action(), EmergencyAction::Terminate { forced: true });
    e.advance(false);
    assert_eq!(e.next_action(), EmergencyAction::Suspend);
    e.advance(true);
    assert_eq!(e.next_action(), EmergencyAction::Wait { ms: 1000 });
    e.advance(true);
    assert_eq!(e.next_action(), EmergencyAction::Terminate { forced: true });
    e.advance(false);
    assert_eq!(e.next_action(), EmergencyAction::Report(false));
}

#[test]
fn emergency_graceful_success_ends_at_once() {
    let mut e = EmergencyTermination::new();
    e.advance(true);
    assert_eq!(e.next_action(), EmergencyAction::Report(true));
}

#[test]
fn emergency_failed_suspension_fails() {
    let mut e = EmergencyTermination::new();
    e.advance(false);
    e.advance(false);
    e.advance(false);
    assert_eq!(e.next_action(), EmergencyAction::Report(false));
}

#[test]
fn hunt_decisions() {
    assert_eq!(hunt_decision(0, false), HuntDecision::NothingFound);
    assert_eq!(hunt_decision(3, true), HuntDecision::ReportOnly);
    assert_eq!(hunt_decision(3, false), HuntDecision::Confirm);
    assert_eq!(hunt_decision(1, false), HuntDecision::Terminate);
}
