use algebra_rose::progress::Event;
use algebra_rose::recurrence::EngineError;
use algebra_rose::session::Simulation;
use algebra_rose::stage::StageTable;

#[test]
fn test_session_advances_stage_on_rollover() {
    // From 0.5 each step gains about 309016 fixed-point units; scaled by
    // 20000 that is more than one stage step's worth per advance, so the
    // navigator climbs one stage per advance.
    let mut sim = Simulation::new(StageTable::new(), Some(500_000_000), 20_000).unwrap();
    assert_eq!(sim.navigator.current_index, 1);

    let (value, events) = sim.advance();
    assert_eq!(value, 500_309_016);
    assert!(events.contains(&Event::StageStepCompleted));
    assert_eq!(sim.navigator.current_index, 2);
    assert_eq!(sim.accountant.stages_completed, 0);

    sim.advance();
    assert_eq!(sim.navigator.current_index, 3);
    // The third advance starts from carried-over units and completes two
    // stage steps at once.
    sim.advance();
    assert_eq!(sim.navigator.current_index, 5);
    assert_eq!(sim.engine.iteration(), 3);
}

#[test]
fn test_session_navigator_saturates_at_last_stage() {
    let table = StageTable::from_dimensions(&vec![3, 5]).unwrap();
    let mut sim = Simulation::new(table, Some(500_000_000), 20_000).unwrap();
    for _ in 0..5 {
        sim.advance();
    }
    assert_eq!(sim.navigator.current_index, 2);
}

#[test]
fn test_session_without_scaling_accumulates_quietly() {
    // With a unit scale of 1 the tiny per-step gains stay far below one
    // group, so no events fire and the navigator does not move.
    let mut sim = Simulation::new(StageTable::new(), Some(500_000_000), 1).unwrap();
    for _ in 0..10 {
        let (_, events) = sim.advance();
        assert!(events.is_empty());
    }
    assert_eq!(sim.navigator.current_index, 1);
    assert!(sim.accountant.units > 0);
}

#[test]
fn test_session_invalid_initial() {
    let err = Simulation::new(StageTable::new(), Some(0), 1).unwrap_err();
    assert_eq!(err, EngineError::InvalidInitialValue);
}
