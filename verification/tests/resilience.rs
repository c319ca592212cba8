use rshunterbtt::resilience::{
    elapsed_below, entries_within, LadderAction, RebootSkip, ResilienceLadder, ResilienceState,
    ResilienceStateStore, RungSkips, NANOS_PER_SEC, REBOOT_24H_WINDOW,
};

fn t(secs: i64) -> i128 {
    secs as i128 * NANOS_PER_SEC
}

fn seconds(n: i64) -> i128 {
    n as i128 * NANOS_PER_SEC
}

fn minutes(n: i64) -> i128 {
    seconds(60 * n)
}

fn hours(n: i64) -> i128 {
    minutes(60 * n)
}

#[test]
fn no_action_on_first_failures() {
    let mut ladder = ResilienceLadder::new();
    let now = t(1_000);
    for i in 0..4 {
        assert_eq!(
            ladder.on_connection_failure(now + seconds(i)),
            LadderAction::NoEscalation
        );
    }
}

#[test]
fn five_failures_within_window_power_cycles() {
    let mut ladder = ResilienceLadder::new();
    let now = t(1_000);
    for i in 0..4 {
        ladder.on_connection_failure(now + seconds(i));
    }
    assert_eq!(
        ladder.on_connection_failure(now + seconds(4)),
        LadderAction::PowerCycle
    );
}

#[test]
fn sixth_failure_within_window_is_rate_limited() {
    let mut ladder = ResilienceLadder::new();
    let now = t(1_000);
    for i in 0..5 {
        ladder.on_connection_failure(now + seconds(i));
    }
    assert_eq!(
        ladder.on_connection_failure(now + seconds(5)),
        LadderAction::NoEscalation
    );
}

#[test]
fn success_resets_counter() {
    let mut ladder = ResilienceLadder::new();
    let now = t(1_000);
    for i in 0..5 {
        ladder.on_connection_failure(now + seconds(i));
    }
    ladder.on_connection_success();
    assert_eq!(ladder.consecutive_failures(), 0);
    assert_eq!(
        ladder.on_connection_failure(now + seconds(100)),
        LadderAction::NoEscalation
    );
}

#[test]
fn fifteen_failures_reboots() {
    let mut ladder = ResilienceLadder::new();
    let now = t(1_000);
    for i in 0..15 {
        ladder.on_connection_failure(now + seconds(i));
    }
    assert_eq!(ladder.state().reboot_timestamps.len(), 1);
}

#[test]
fn reboot_rate_limited_within_30min() {
    let mut ladder = ResilienceLadder::new();
    let now = t(1_000);
    for i in 0..15 {
        ladder.on_connection_failure(now + seconds(i));
    }
    let action = ladder.on_connection_failure(now + minutes(5));
    assert_eq!(action, LadderAction::NoEscalation);
    assert_eq!(ladder.state().reboot_timestamps.len(), 1);
}

#[test]
fn reboot_cap_reaches_keep_retrying() {
    let mut ladder = ResilienceLadder::new();
    let mut now = t(1_000);
    for i in 0..15 {
        ladder.on_connection_failure(now + seconds(i));
    }
    now += minutes(31);
    for i in 0..15 {
        ladder.on_connection_failure(now + seconds(i));
    }
    now += minutes(31);
    for i in 0..15 {
        ladder.on_connection_failure(now + seconds(i));
    }
    assert_eq!(ladder.state().reboot_timestamps.len(), 3);
    now += minutes(31);
    let action = ladder.on_connection_failure(now + seconds(0));
    assert_eq!(action, LadderAction::KeepRetrying);
}

#[test]
fn failures_spread_beyond_window_do_not_power_cycle() {
    let mut ladder = ResilienceLadder::new();
    let now = t(1_000);
    for i in 0..10 {
        assert_ne!(
            ladder.on_connection_failure(now + minutes(3 * i)),
            LadderAction::PowerCycle
        );
    }
    assert_eq!(ladder.consecutive_failures(), 10);
}

#[test]
fn power_cycle_again_after_rate_limit_expires() {
    let mut ladder = ResilienceLadder::new();
    let now = t(1_000);
    for i in 0..5 {
        ladder.on_connection_failure(now + seconds(i));
    }
    assert_eq!(ladder.state().last_power_cycle_at, Some(now + seconds(4)));
    for i in 0..4 {
        ladder.on_connection_failure(now + minutes(16) + seconds(i));
    }
    assert_eq!(
        ladder.on_connection_failure(now + minutes(16) + seconds(4)),
        LadderAction::PowerCycle
    );
}

#[test]
fn reboot_needs_an_earlier_power_cycle() {
    let state = ResilienceState {
        last_power_cycle_at: None,
        reboot_timestamps: Vec::new(),
    };
    let mut ladder = ResilienceLadder::from_state(state);
    let now = t(50_000);
    let mut actions = Vec::new();
    for i in 0..20 {
        actions.push(ladder.on_connection_failure(now + minutes(11 * i)));
    }
    assert!(!actions.contains(&LadderAction::Reboot));
    assert!(!actions.contains(&LadderAction::PowerCycle));
}

#[test]
fn loaded_state_with_cap_reached_keeps_retrying() {
    let now = t(100_000);
    let state = ResilienceState {
        last_power_cycle_at: Some(now - minutes(1)),
        reboot_timestamps: vec![now - hours(5), now - hours(4), now - hours(3)],
    };
    let mut ladder = ResilienceLadder::from_state(state);
    assert_eq!(
        ladder.on_connection_failure(now),
        LadderAction::KeepRetrying
    );
}

#[test]
fn state_prune_drops_reboots_older_than_a_day() {
    let now = t(1_000_000);
    let mut state = ResilienceState {
        last_power_cycle_at: Some(now),
        reboot_timestamps: vec![now, now - hours(25), now - hours(24), now - hours(23)],
    };
    state.prune_reboots(now);
    assert_eq!(state.reboot_timestamps, vec![now, now - hours(23)]);
    assert_eq!(state.last_power_cycle_at, Some(now));
}

#[test]
fn elapsed_below_handles_extreme_instants() {
    assert!(elapsed_below(i128::MIN, i128::MAX, 1));
    assert!(!elapsed_below(i128::MAX, i128::MIN, REBOOT_24H_WINDOW));
    assert!(elapsed_below(5, 0, 6));
    assert!(!elapsed_below(6, 0, 6));
    assert_eq!(
        entries_within(&vec![0, 10, 20], 25, 16),
        vec![10, 20]
    );
}

#[test]
fn state_store_paths() {
    let store = ResilienceStateStore::new("rear");
    assert_eq!(
        store.path(),
        "/var/lib/rshunterbtt/rear-resilience-state.json"
    );
    let store = ResilienceStateStore::with_path("/tmp/x.json");
    assert_eq!(store.path(), "/tmp/x.json");
}

#[test]
fn default_ladder_is_fresh() {
    let ladder = ResilienceLadder::default();
    assert_eq!(ladder.consecutive_failures(), 0);
    assert_eq!(ladder.state().last_power_cycle_at, None);
    assert!(ladder.state().reboot_timestamps.is_empty());
}

#[test]
fn rate_limited_power_cycle_reports_the_last_one() {
    let mut ladder = ResilienceLadder::new();
    let now = t(1_000);
    for i in 0..4 {
        let (_, skips) = ladder.on_connection_failure_with_skips(now + seconds(i));
        assert_eq!(skips, RungSkips { power_cycle_skipped: None, reboot_skipped: None });
    }
    let (action, skips) = ladder.on_connection_failure_with_skips(now + seconds(4));
    assert_eq!(action, LadderAction::PowerCycle);
    assert_eq!(skips, RungSkips { power_cycle_skipped: None, reboot_skipped: None });
    let (action, skips) = ladder.on_connection_failure_with_skips(now + seconds(5));
    assert_eq!(action, LadderAction::NoEscalation);
    assert_eq!(skips.power_cycle_skipped, Some(now + seconds(4)));
    assert_eq!(skips.reboot_skipped, None);
}

#[test]
fn rate_limited_reboot_reports_recent_reboots() {
    let mut ladder = ResilienceLadder::new();
    let now = t(1_000);
    for i in 0..15 {
        ladder.on_connection_failure(now + seconds(i));
    }
    let (action, skips) = ladder.on_connection_failure_with_skips(now + minutes(5));
    assert_eq!(action, LadderAction::NoEscalation);
    assert_eq!(skips.power_cycle_skipped, Some(now + seconds(4)));
    assert_eq!(
        skips.reboot_skipped,
        Some(RebootSkip { within_30min: true, within_24h: 1 })
    );
}

#[test]
fn reboot_cap_reports_skip_outside_30min() {
    let now = t(100_000);
    let state = ResilienceState {
        last_power_cycle_at: Some(now - minutes(1)),
        reboot_timestamps: vec![now - hours(5), now - hours(4), now - hours(3)],
    };
    let mut ladder = ResilienceLadder::from_state(state);
    for i in 0..14 {
        ladder.on_connection_failure(now + seconds(i));
    }
    let (action, skips) = ladder.on_connection_failure_with_skips(now + seconds(14));
    assert_eq!(action, LadderAction::KeepRetrying);
    assert_eq!(skips.power_cycle_skipped, Some(now - minutes(1)));
    assert_eq!(
        skips.reboot_skipped,
        Some(RebootSkip { within_30min: false, within_24h: 3 })
    );
}

#[test]
fn rate_limits_hold_over_a_long_outage() {
    let mut ladder = ResilienceLadder::new();
    let start = t(1_000);
    let mut power_cycles = Vec::new();
    let mut reboots = Vec::new();
    for i in 0..(3 * 24 * 60) {
        let now = start + minutes(i);
        match ladder.on_connection_failure(now) {
            LadderAction::PowerCycle => power_cycles.push(now),
            LadderAction::Reboot => reboots.push(now),
            _ => {}
        }
        if i % 97 == 96 {
            ladder.on_connection_success();
        }
    }
    assert!(power_cycles.len() > 1);
    assert!(reboots.len() > 3);
    for w in power_cycles.windows(2) {
        assert!(w[1] - w[0] >= minutes(15));
    }
    for w in reboots.windows(2) {
        assert!(w[1] - w[0] >= minutes(30));
    }
    for w in reboots.windows(4) {
        assert!(w[3] - w[0] >= hours(24));
    }
}
