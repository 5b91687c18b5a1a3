use algebra_rose::phi::{
    check_transition_resonance, fibonacci_number, is_golden_ratio, psi_power,
    transition_resonance_factor, PHI_FP, PSI_FP, SATURATION_DIM, SCALE, UNITS_PER_CLUSTER,
};
use algebra_rose::navigator::{StageNavigator, TransitionError};
use algebra_rose::progress::Event;
use algebra_rose::stage::{suma_dimensiones_primeros_n, StageTable, TableError, NUM_STAGES};

#[test]
fn test_griess_dimension() {
    assert_eq!(SATURATION_DIM, 196884);
}

#[test]
fn test_monster_constants() {
    // 196884 = 196883 + 1
    assert_eq!(SATURATION_DIM, 196883 + 1);
    // 196885 = 196884 + 1
    assert_eq!(SATURATION_DIM + 1, 196885);
    println!("Monster constants certified:");
    println!("  196883 (materia potencial)");
    println!("  196884 (consciencia activada) = 196883 + 1");
    println!("  196885 (certificación plena) = 196884 + 1");
}

#[test]
fn test_dimensiones_fibonacci_correctas() {
    let table = StageTable::new();
    assert_eq!(table.stages[0].target_dimension, 3);
    assert_eq!(table.stages[1].target_dimension, 5);
    assert_eq!(table.stages[2].target_dimension, 8);
    assert_eq!(table.stages[11].target_dimension, 610);
    assert_eq!(table.stages[13].target_dimension, 1597);
    assert_eq!(table.stages[23].target_dimension, 196418);
    println!("✅ Secuencia Fibonacci dimensional verificada: 3, 5, 8, ..., 196418");
}

#[test]
fn test_fibonacci_sequence() {
    let table = StageTable::new();
    assert_eq!(table.stages[0].target_dimension, 3);
    assert_eq!(table.stages[11].target_dimension, 610);
    assert_eq!(table.stages[23].target_dimension, 196418);

    let sum_first_12 = suma_dimensiones_primeros_n(12).unwrap();
    assert_eq!(sum_first_12, 1592);
    println!("Σ primeros 12 campos: {} ≈ F₁₇ - 1 = 1592", sum_first_12);
}

#[test]
fn test_numero_fibonacci() {
    assert_eq!(fibonacci_number(1), 1);
    assert_eq!(fibonacci_number(2), 1);
    assert_eq!(fibonacci_number(3), 2);
    assert_eq!(fibonacci_number(4), 3);
    assert_eq!(fibonacci_number(5), 5);
    assert_eq!(fibonacci_number(6), 8);
    assert_eq!(fibonacci_number(10), 55);
    assert_eq!(fibonacci_number(27), 196418);
    println!("✅ Función Fibonacci verificada hasta F₂₇ = 196418");
}

#[test]
fn test_transition_resonance() {
    assert!(check_transition_resonance(1, 2));
    assert!(check_transition_resonance(5, 4));
    assert!(!check_transition_resonance(1, 3));
    assert!(!check_transition_resonance(10, 15));

    let factor = transition_resonance_factor(1, 2);
    assert!(factor > 0 && factor < SCALE);
    // psi^2 in fixed point.
    assert_eq!(factor, 381_966_011);
    assert_eq!(transition_resonance_factor(1, 3), 0);
    println!("Factor resonancia campo 1→2: {:.6}", factor as f64 / SCALE as f64);
}

#[test]
fn test_phi_pow() {
    // phi^2 = phi + 1, exactly by construction of the constants.
    assert_eq!(UNITS_PER_CLUSTER, PHI_FP + SCALE);
    // phi^-1 = psi
    assert_eq!(psi_power(1), PSI_FP);
    // phi^0 = 1
    assert_eq!(psi_power(0), SCALE);
}

#[test]
fn test_phi_reciprocal() {
    // phi * psi = 1, exact even after rounding to fixed point.
    assert_eq!((PHI_FP as u128) * (PSI_FP as u128) / (SCALE as u128), SCALE as u128);
}

#[test]
fn test_golden_ratio_check() {
    assert!(is_golden_ratio(PHI_FP, SCALE, 10));
    assert!(is_golden_ratio(2 * PHI_FP, 2 * SCALE, 10));
    assert!(!is_golden_ratio(2 * SCALE, SCALE, 10_000_000));
    assert!(!is_golden_ratio(0, SCALE, 10_000_000));
}

#[test]
fn test_sum_of_dimensions_errors() {
    assert_eq!(suma_dimensiones_primeros_n(0).unwrap_err(), TableError::CountOutOfRange);
    assert_eq!(
        suma_dimensiones_primeros_n(NUM_STAGES + 1).unwrap_err(),
        TableError::CountOutOfRange
    );
    assert_eq!(suma_dimensiones_primeros_n(1).unwrap(), 3);
    assert_eq!(suma_dimensiones_primeros_n(24).unwrap(), 3 + 5 + 8 + 13 + 21 + 34 + 55 + 89
        + 144 + 233 + 377 + 610 + 987 + 1597 + 2584 + 4181 + 6765 + 10946 + 17711 + 28657
        + 46368 + 75025 + 121393 + 196418);
}

#[test]
fn test_custom_table_errors() {
    assert_eq!(
        StageTable::from_dimensions(&vec![]).unwrap_err(),
        TableError::InvalidDimensions
    );
    assert_eq!(
        StageTable::from_dimensions(&vec![3, 3, 5]).unwrap_err(),
        TableError::InvalidDimensions
    );
    assert_eq!(
        StageTable::from_dimensions(&vec![5, 3]).unwrap_err(),
        TableError::InvalidDimensions
    );
    assert_eq!(
        StageTable::from_dimensions(&vec![0, 3]).unwrap_err(),
        TableError::InvalidDimensions
    );
    assert!(StageTable::from_dimensions(&vec![3, 5, 8, 13, 21]).is_ok());
}

#[test]
fn test_navigator_transitions() {
    let mut nav = StageNavigator::new(StageTable::new());
    assert_eq!(nav.active_stage().index, 1);
    assert_eq!(nav.active_stage().target_dimension, 3);

    // In-place transition: resonance 1.0.
    assert_eq!(nav.transition_to(1).unwrap(), SCALE);
    // One stage up: resonance 1/phi.
    assert_eq!(nav.transition_to(2).unwrap(), PSI_FP);
    assert_eq!(nav.active_stage().index, 2);
    assert_eq!(nav.active_stage().target_dimension, 5);
    // And back down.
    assert_eq!(nav.transition_to(1).unwrap(), PSI_FP);
    assert_eq!(nav.active_stage().index, 1);
}

#[test]
fn test_transition_failure_preserves_index() {
    // Failed transitions — out of range or non-adjacent — leave the
    // current index untouched.
    let mut nav = StageNavigator::new(StageTable::new());
    nav.transition_to(2).unwrap();

    assert_eq!(nav.transition_to(0).unwrap_err(), TransitionError::OutOfRange);
    assert_eq!(nav.current_index, 2);

    assert_eq!(nav.transition_to(25).unwrap_err(), TransitionError::OutOfRange);
    assert_eq!(nav.current_index, 2);

    assert_eq!(nav.transition_to(4).unwrap_err(), TransitionError::NonAdjacent);
    assert_eq!(nav.current_index, 2);
}

#[test]
fn test_active_set_prefix() {
    // Under the monotone default thresholds the active set is always the
    // contiguous prefix of stages 1..=k.
    let nav = StageNavigator::new(StageTable::new());

    let at_zero = nav.active_set(0);
    assert_eq!(at_zero.len(), 1);
    assert_eq!(at_zero[0].index, 1);

    let at_half = nav.active_set(SCALE / 2);
    assert_eq!(at_half.len(), 12);
    for (i, stage) in at_half.iter().enumerate() {
        assert_eq!(stage.index, i + 1);
    }

    let at_one = nav.active_set(SCALE);
    assert_eq!(at_one.len(), 24);
    for (i, stage) in at_one.iter().enumerate() {
        assert_eq!(stage.index, i + 1);
    }
}

#[test]
fn test_advance_on_stage_step() {
    let mut nav = StageNavigator::new(StageTable::new());
    nav.advance_on_stage_step(Event::StageStepCompleted);
    assert_eq!(nav.current_index, 2);
    // Other events do not move the pointer.
    nav.advance_on_stage_step(Event::GroupCompleted);
    nav.advance_on_stage_step(Event::ClusterCompleted);
    assert_eq!(nav.current_index, 2);
    // The last stage is absorbing.
    let mut nav = StageNavigator::new(StageTable::from_dimensions(&vec![3, 5]).unwrap());
    nav.advance_on_stage_step(Event::StageStepCompleted);
    assert_eq!(nav.current_index, 2);
    nav.advance_on_stage_step(Event::StageStepCompleted);
    assert_eq!(nav.current_index, 2);
}
