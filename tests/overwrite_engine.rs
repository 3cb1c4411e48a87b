use defuscrypt::overwrite::{OverwritePlan, Overwriter, Pass, Pattern, WipeAction, WipeStage, DEFAULT_CHUNK};

/// Runs the engine against an in-memory file; returns the file after each
/// flushed pass and the number of writes.
fn run(file: &mut Vec<u8>, plan: OverwritePlan) -> (Vec<Vec<u8>>, usize, WipeStage) {
    let mut engine = Overwriter::new(file.len(), plan);
    let mut pos = 0usize;
    let mut snapshots = Vec::new();
    let mut writes = 0usize;
    loop {
        let action = engine.next_action();
        match &action {
            WipeAction::Open => {}
            WipeAction::Seek => pos = 0,
            WipeAction::Write(bytes) => {
                file[pos..pos + bytes.len()].copy_from_slice(bytes);
                pos += bytes.len();
                writes += 1;
            }
            WipeAction::Flush => snapshots.push(file.clone()),
            WipeAction::Done | WipeAction::Failed => return (snapshots, writes, engine.stage()),
        }
        engine.advance(&action);
    }
}

fn plan_with_chunk(patterns: &[Pattern], chunk: usize) -> OverwritePlan {
    OverwritePlan { passes: patterns.iter().map(|&p| Pass { pattern: p, chunk_size: chunk }).collect() }
}

#[test]
fn zero_length_overwrite_is_a_noop() {
    for plan in [OverwritePlan::quick(), OverwritePlan::standard(), OverwritePlan::dod()] {
        let engine = Overwriter::new(0, plan);
        assert_eq!(engine.stage(), WipeStage::Done);
        assert!(matches!(engine.next_action(), WipeAction::Done));
        assert_eq!(engine.passes_done(), 0);
    }
}

#[test]
fn overwrite_keeps_length_for_every_plan() {
    for len in [1usize, 7, 4096, DEFAULT_CHUNK + 3] {
        for plan in [OverwritePlan::quick(), OverwritePlan::standard(), OverwritePlan::dod()] {
            let passes = plan.passes.len();
            let mut file = vec![0x5Au8; len];
            let (snaps, _, stage) = run(&mut file, plan);
            assert_eq!(stage, WipeStage::Done);
            assert_eq!(file.len(), len);
            assert_eq!(snaps.len(), passes);
            assert!(snaps.iter().all(|s| s.len() == len));
        }
    }
}

#[test]
fn dod_passes_are_zeros_then_ones_then_random() {
    let mut file = vec![0x42u8; 10];
    let (snaps, writes, stage) = run(&mut file, plan_with_chunk(&[Pattern::Zeros, Pattern::Ones, Pattern::Random], 3));
    assert_eq!(stage, WipeStage::Done);
    assert_eq!(snaps[0], vec![0u8; 10]);
    assert_eq!(snaps[1], vec![0xFFu8; 10]);
    assert_eq!(snaps[2].len(), 10);
    // 10 bytes in chunks of 3: four writes per pass.
    assert_eq!(writes, 12);
}

#[test]
fn builtin_plans_have_the_documented_passes() {
    let quick: Vec<Pattern> = OverwritePlan::quick().passes.iter().map(|p| p.pattern).collect();
    assert_eq!(quick, vec![Pattern::Zeros]);
    let standard: Vec<Pattern> = OverwritePlan::standard().passes.iter().map(|p| p.pattern).collect();
    assert_eq!(standard, vec![Pattern::Random, Pattern::Random, Pattern::Random]);
    let dod: Vec<Pattern> = OverwritePlan::dod().passes.iter().map(|p| p.pattern).collect();
    assert_eq!(dod, vec![Pattern::Zeros, Pattern::Ones, Pattern::Random]);
    for plan in [OverwritePlan::quick(), OverwritePlan::standard(), OverwritePlan::dod()] {
        assert!(plan.passes.iter().all(|p| p.chunk_size == 1048576));
    }
}

#[test]
fn chunks_never_exceed_the_chunk_size() {
    let mut engine = Overwriter::new(DEFAULT_CHUNK * 2 + 5, OverwritePlan::quick());
    let mut sizes = Vec::new();
    loop {
        let action = engine.next_action();
        if let WipeAction::Write(bytes) = &action {
            sizes.push(bytes.len());
            assert!(bytes.iter().all(|&b| b == 0));
        }
        if matches!(action, WipeAction::Done) {
            break;
        }
        engine.advance(&action);
    }
    assert_eq!(sizes, vec![DEFAULT_CHUNK, DEFAULT_CHUNK, 5]);
}

#[test]
fn random_pass_is_not_a_fixed_pattern() {
    let mut file = vec![0u8; 4096];
    run(&mut file, OverwritePlan::standard());
    assert!(file.iter().any(|&b| b != 0));
}

#[test]
fn failure_stops_the_engine() {
    let mut engine = Overwriter::new(100, OverwritePlan::dod());
    let a = engine.next_action();
    assert!(matches!(a, WipeAction::Open));
    engine.fail();
    assert_eq!(engine.stage(), WipeStage::Failed);
    assert!(matches!(engine.next_action(), WipeAction::Failed));
}
