use algebra_rose::phi::{UNITS_PER_CLUSTER, UNITS_PER_GROUP, UNITS_PER_STAGE_STEP};
use algebra_rose::progress::{Event, GranularProgress};

#[test]
fn test_granular_progress() {
    let mut progress = GranularProgress::new();

    // Enough units to complete one group.
    let events = progress.add(UNITS_PER_GROUP);
    assert!(!events.is_empty());
    assert_eq!(events[0], Event::GroupCompleted);
    assert_eq!(progress.groups_completed, 1);

    // Enough further units to complete one cluster.
    let events = progress.add(UNITS_PER_CLUSTER - UNITS_PER_GROUP);
    assert!(!events.is_empty());
    assert!(events.iter().any(|e| *e == Event::ClusterCompleted));
    assert_eq!(progress.clusters_completed, 1);

    println!(
        "Progreso granular: {} escalares, {} vectores, {} tensores",
        progress.units, progress.groups_completed, progress.clusters_completed
    );
}

#[test]
fn test_group_completion_exact() {
    // Adding exactly one group's worth of units yields exactly one
    // GroupCompleted event and a group count of one.
    let mut progress = GranularProgress::new();
    let events = progress.add(UNITS_PER_GROUP);
    assert_eq!(events, vec![Event::GroupCompleted]);
    assert_eq!(progress.groups_completed, 1);
    assert_eq!(progress.units, UNITS_PER_GROUP);
    assert_eq!(progress.stages_completed, 0);
}

#[test]
fn test_stage_step_rollover() {
    // Adding a full stage step completes two groups and one cluster on the
    // way, emits a StageStepCompleted, and resets the units exactly to 0.
    let mut progress = GranularProgress::new();
    let events = progress.add(UNITS_PER_STAGE_STEP);
    assert!(events.contains(&Event::StageStepCompleted));
    assert_eq!(
        events,
        vec![
            Event::GroupCompleted,
            Event::GroupCompleted,
            Event::ClusterCompleted,
            Event::StageStepCompleted,
        ]
    );
    assert_eq!(progress.units, 0);
    assert_eq!(progress.groups_completed, 0);
    assert_eq!(progress.clusters_completed, 0);
    assert_eq!(progress.stages_completed, 1);
}

#[test]
fn test_multiple_rollovers_in_one_call() {
    // A large amount fires the stage-step rollover once per completed step.
    let mut progress = GranularProgress::new();
    let events = progress.add(3 * UNITS_PER_STAGE_STEP);
    let steps = events.iter().filter(|e| **e == Event::StageStepCompleted).count();
    assert_eq!(steps, 3);
    assert_eq!(progress.stages_completed, 3);
    assert_eq!(progress.units, 0);
    assert_eq!(progress.groups_completed, 0);
    assert_eq!(progress.clusters_completed, 0);
}

#[test]
fn test_zero_amount_changes_nothing() {
    let mut progress = GranularProgress::new();
    let events = progress.add(0);
    assert!(events.is_empty());
    assert_eq!(progress.units, 0);
    assert_eq!(progress.groups_completed, 0);
    assert_eq!(progress.clusters_completed, 0);
    assert_eq!(progress.stages_completed, 0);
}

#[test]
fn test_take_stage_steps() {
    let mut progress = GranularProgress::new();
    progress.add(2 * UNITS_PER_STAGE_STEP);
    assert_eq!(progress.take_stage_steps(), 2);
    assert_eq!(progress.stages_completed, 0);
    assert_eq!(progress.take_stage_steps(), 0);
}

#[test]
fn test_groups_are_floor_counts() {
    // Groups derive from the cumulative units: a second group completes
    // only once the cumulative units pass twice UNITS_PER_GROUP.
    let mut progress = GranularProgress::new();
    progress.add(UNITS_PER_GROUP);
    let events = progress.add(UNITS_PER_GROUP / 2);
    assert!(events.is_empty());
    assert_eq!(progress.groups_completed, 1);
    let events = progress.add(UNITS_PER_GROUP);
    assert!(events.contains(&Event::GroupCompleted));
    assert_eq!(progress.groups_completed, 2);
}
