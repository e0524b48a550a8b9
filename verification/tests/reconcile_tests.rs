use khost::reconcile::{
    apply_plan, apply_step, count_enabled_nodes, plan, reconcile, supports_multiple_networks,
    ObservedUnit, ReconcileEntry, ReconcileReport, Step,
};

const GIB: u64 = 1024 * 1024 * 1024;

fn absent() -> ObservedUnit {
    ObservedUnit { exists: false, enabled: false, active: false }
}

fn running() -> ObservedUnit {
    ObservedUnit { exists: true, enabled: true, active: true }
}

fn entry(enabled: bool, node: bool, observed: ObservedUnit) -> ReconcileEntry {
    ReconcileEntry { enabled, node_instance: node, observed }
}

#[test]
fn example_scenario_plans_teardown_then_activation() {
    // node-mainnet: enabled, no unit yet; node-testnet: disabled, running.
    let entries = vec![entry(true, true, absent()), entry(false, true, running())];
    let steps = plan(&entries, false, false);
    assert_eq!(
        steps,
        vec![
            Step::Stop(1),
            Step::Disable(1),
            Step::Delete(1),
            Step::WriteUnit(0),
            Step::DaemonReload,
            Step::Enable(0),
            Step::Start(0),
        ]
    );
}

#[test]
fn example_scenario_converges_to_one_active_unit() {
    let entries = vec![entry(true, true, absent()), entry(false, true, running())];
    let steps = plan(&entries, false, false);
    let observed = vec![absent(), running()];
    let outcomes = vec![true; steps.len()];
    let after = apply_plan(&observed, &steps, &outcomes);
    assert_eq!(after[0], running());
    assert!(!after[1].exists);
    assert!(!after[1].active);
    let active = after.iter().filter(|u| u.active).count();
    assert_eq!(active, 1);
}

#[test]
fn second_run_plans_nothing() {
    let entries = vec![entry(true, true, absent()), entry(false, true, running())];
    let steps = plan(&entries, false, false);
    let observed: Vec<ObservedUnit> = entries.iter().map(|e| e.observed).collect();
    let outcomes = vec![true; steps.len()];
    let after = apply_plan(&observed, &steps, &outcomes);
    let rerun: Vec<ReconcileEntry> = entries
        .iter()
        .zip(after.iter())
        .map(|(e, o)| entry(e.enabled, e.node_instance, *o))
        .collect();
    let second = plan(&rerun, false, false);
    assert!(second.is_empty());
}

#[test]
fn forced_run_rewrites_but_converges_the_same() {
    let entries = vec![entry(true, true, running())];
    let steps = plan(&entries, true, false);
    assert_eq!(steps, vec![Step::WriteUnit(0), Step::DaemonReload]);
    let observed = vec![running()];
    let outcomes = vec![true; steps.len()];
    let after = apply_plan(&observed, &steps, &outcomes);
    assert_eq!(after[0], running());
}

#[test]
fn three_new_services_reload_once_after_all_writes() {
    let entries = vec![
        entry(true, true, absent()),
        entry(true, false, absent()),
        entry(true, true, absent()),
    ];
    let steps = plan(&entries, false, false);
    let reloads = steps.iter().filter(|s| matches!(s, Step::DaemonReload)).count();
    assert_eq!(reloads, 1);
    let reload_at = steps.iter().position(|s| matches!(s, Step::DaemonReload)).unwrap();
    for (at, step) in steps.iter().enumerate() {
        if matches!(step, Step::WriteUnit(_)) {
            assert!(at < reload_at);
        }
    }
}

#[test]
fn teardown_fully_precedes_activation() {
    // A disabled and B enabled share a downstream resource; every teardown
    // step of A must come before any activation step of B.
    let entries = vec![entry(false, true, running()), entry(true, true, absent())];
    let steps = plan(&entries, false, true);
    let is_teardown =
        |s: &Step| matches!(s, Step::Stop(_) | Step::Disable(_) | Step::Delete(_));
    let last_teardown = steps.iter().rposition(is_teardown).unwrap();
    let first_activation = steps.iter().position(|s| !is_teardown(s)).unwrap();
    assert!(last_teardown < first_activation);
}

#[test]
fn failed_stop_still_attempts_disable_and_delete() {
    let entries = vec![entry(false, true, running()), entry(true, true, absent())];
    let steps = plan(&entries, false, false);
    assert_eq!(steps[0], Step::Stop(0));
    assert!(steps.contains(&Step::Disable(0)));
    assert!(steps.contains(&Step::Delete(0)));
    // Simulate the stop failing: every other step still runs, and the
    // other service converges exactly as in an all-success run.
    let observed = vec![running(), absent()];
    let mut outcomes = vec![true; steps.len()];
    outcomes[0] = false;
    let after = apply_plan(&observed, &steps, &outcomes);
    let all_ok = vec![true; steps.len()];
    let after_ok = apply_plan(&observed, &steps, &all_ok);
    assert_eq!(after[1], after_ok[1]);
    assert_eq!(after[1], running());
    // The unit file of the failed service is still removed.
    assert!(!after[0].exists);
    // Only the stop failed, so the unit is still running.
    assert!(after[0].active);
}

#[test]
fn proxy_steps_come_last_and_only_when_changed() {
    let entries = vec![entry(true, true, absent())];
    let unchanged = plan(&entries, false, false);
    assert!(!unchanged.contains(&Step::WriteProxy));
    assert!(!unchanged.contains(&Step::ReloadProxy));
    let changed = plan(&entries, false, true);
    let n = changed.len();
    assert_eq!(changed[n - 2], Step::WriteProxy);
    assert_eq!(changed[n - 1], Step::ReloadProxy);
}

#[test]
fn admission_gate_blocks_low_memory_multi_instance() {
    let entries = vec![entry(true, true, absent()), entry(true, true, absent())];
    assert_eq!(count_enabled_nodes(&entries), 2);
    // Below the 17 GiB floor: refused without an override, allowed with one.
    assert!(reconcile(&entries, false, false, 16 * GIB, false).is_none());
    assert!(reconcile(&entries, false, false, 16 * GIB, true).is_some());
    // At the floor: no override needed.
    assert!(reconcile(&entries, false, false, 17 * GIB, false).is_some());
}

#[test]
fn admission_gate_ignores_single_instance() {
    let entries = vec![entry(true, true, absent()), entry(false, true, running())];
    assert_eq!(count_enabled_nodes(&entries), 1);
    assert!(reconcile(&entries, false, false, 1 * GIB, false).is_some());
}

#[test]
fn admission_gate_ignores_non_node_services() {
    let entries = vec![entry(true, false, absent()), entry(true, false, absent())];
    assert_eq!(count_enabled_nodes(&entries), 0);
    assert!(reconcile(&entries, false, false, 1 * GIB, false).is_some());
}

#[test]
fn memory_support_boundary() {
    assert!(supports_multiple_networks(17 * GIB, 2));
    assert!(!supports_multiple_networks(17 * GIB - 1, 2));
    assert!(supports_multiple_networks(0, 1));
    assert!(supports_multiple_networks(0, 0));
}

#[test]
fn reconcile_plans_match_plan() {
    let entries = vec![entry(true, true, absent()), entry(false, true, running())];
    let direct = plan(&entries, false, true);
    let gated = reconcile(&entries, false, true, 32 * GIB, false).unwrap();
    assert_eq!(direct, gated);
}

#[test]
fn apply_step_updates_only_its_target() {
    let mut observed = vec![running(), running()];
    apply_step(&mut observed, Step::Stop(1), true);
    assert_eq!(observed[0], running());
    assert!(!observed[1].active);
    apply_step(&mut observed, Step::Disable(1), false);
    assert!(observed[1].enabled);
    apply_step(&mut observed, Step::DaemonReload, true);
    assert_eq!(observed[0], running());
    // An index past the list leaves every unit alone.
    apply_step(&mut observed, Step::Delete(9), true);
    assert!(observed[0].exists && observed[1].exists);
}

#[test]
fn report_tracks_outcomes() {
    let steps = vec![Step::Stop(0), Step::Disable(0), Step::Delete(0)];
    let report = ReconcileReport::new(steps.clone(), vec![true, false, true]);
    assert!(!report.ok());
    assert_eq!(report.failure_count(), 1);
    let clean = ReconcileReport::new(steps, vec![true, true, true]);
    assert!(clean.ok());
    assert_eq!(clean.failure_count(), 0);
}
