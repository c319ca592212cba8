use rshunterbtt::resilience::{LadderAction, ResilienceState, RungSkips, NANOS_PER_SEC};
use rshunterbtt::supervisor::{recovery_steps, ConnectionSupervisor, RecoveryStep};

#[test]
fn recovery_steps_per_action() {
    assert_eq!(
        recovery_steps(LadderAction::PowerCycle),
        vec![RecoveryStep::PowerCycleAdapter, RecoveryStep::PersistState]
    );
    assert_eq!(
        recovery_steps(LadderAction::Reboot),
        vec![RecoveryStep::PersistState, RecoveryStep::RebootHost]
    );
    assert!(recovery_steps(LadderAction::KeepRetrying).is_empty());
    assert!(recovery_steps(LadderAction::NoEscalation).is_empty());
}

#[test]
fn supervisor_backs_off_and_escalates() {
    let mut sup = ConnectionSupervisor::new(ResilienceState::default());
    assert_eq!(sup.backoff_secs(), 1);
    let now = 1_000 * NANOS_PER_SEC;
    let mut waits = Vec::new();
    let mut actions = Vec::new();
    for i in 0..5 {
        let r = sup.on_setup_failure(now + i * NANOS_PER_SEC);
        waits.push(r.wait_secs);
        actions.push(r.action);
    }
    assert_eq!(waits, vec![1, 2, 4, 8, 16]);
    assert_eq!(actions[4], LadderAction::PowerCycle);
    assert_eq!(sup.ladder().consecutive_failures(), 5);
    assert_eq!(sup.backoff_secs(), 32);
    sup.on_setup_success();
    assert_eq!(sup.backoff_secs(), 1);
    assert_eq!(sup.ladder().consecutive_failures(), 0);
    assert_eq!(
        sup.ladder().state().last_power_cycle_at,
        Some(now + 4 * NANOS_PER_SEC)
    );
}

#[test]
fn supervisor_reboot_persists_first() {
    let mut sup = ConnectionSupervisor::new(ResilienceState::default());
    let now = 1_000 * NANOS_PER_SEC;
    let mut last = None;
    for i in 0..15 {
        last = Some(sup.on_setup_failure(now + i * NANOS_PER_SEC));
    }
    let r = last.unwrap();
    assert_eq!(r.action, LadderAction::Reboot);
    assert_eq!(r.steps, vec![RecoveryStep::PersistState, RecoveryStep::RebootHost]);
    assert_eq!(r.wait_secs, 60);
    assert_eq!(sup.ladder().state().reboot_timestamps.len(), 1);
}

#[test]
fn supervisor_reports_rate_limited_rungs() {
    let mut sup = ConnectionSupervisor::new(ResilienceState::default());
    let now = 1_000 * NANOS_PER_SEC;
    for i in 0..5 {
        let r = sup.on_setup_failure(now + i * NANOS_PER_SEC);
        assert_eq!(r.skips, RungSkips { power_cycle_skipped: None, reboot_skipped: None });
    }
    let r = sup.on_setup_failure(now + 5 * NANOS_PER_SEC);
    assert_eq!(r.action, LadderAction::NoEscalation);
    assert_eq!(r.skips.power_cycle_skipped, Some(now + 4 * NANOS_PER_SEC));
    assert_eq!(r.skips.reboot_skipped, None);
}
