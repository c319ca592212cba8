use rshunterbtt::dbus_control::SystemResilienceController;
use rshunterbtt::command::{
    build_password, fill_status_cache, lookup_status, manual_run_payload, mqtt_zone_name, next_backoff, plan_command,
    plan_mqtt_command, status_report, valve_transitions, zone_id_for_name, zone_state,
    CommandError, CommandPlan, MqttPlan, ValveEvent, ZoneNames, ZoneRunWrite,
    INITIAL_BACKOFF_SECS,
};
use rshunterbtt::protocol::{Second82Protocol, Second83Protocol, Second86Protocol};
use std::time::Duration;

#[test]
fn test_next_backoff_sequence_and_cap() {
    let mut current = INITIAL_BACKOFF_SECS;
    let mut delays = Vec::new();
    for _ in 0..10 {
        current = next_backoff(current);
        delays.push(Duration::from_secs(current));
    }
    let expected = vec![
        Duration::from_secs(2),
        Duration::from_secs(4),
        Duration::from_secs(8),
        Duration::from_secs(16),
        Duration::from_secs(32),
        Duration::from_secs(60),
        Duration::from_secs(60),
        Duration::from_secs(60),
        Duration::from_secs(60),
        Duration::from_secs(60),
    ];
    assert_eq!(delays, expected);
}

#[test]
fn backoff_saturates_on_huge_values() {
    assert_eq!(next_backoff(u64::MAX), 60);
    assert_eq!(next_backoff(30), 60);
    assert_eq!(next_backoff(31), 60);
    assert_eq!(next_backoff(0), 0);
}

#[test]
fn manual_run_splits_run_time() {
    let p = manual_run_payload(7200).unwrap();
    assert_eq!((p.w_index, p.zm_hour, p.zm_minute, p.zm_second), (4, 2, 0, 0));
    let p = manual_run_payload(1800).unwrap();
    assert_eq!((p.zm_hour, p.zm_minute, p.zm_second), (0, 30, 0));
    let p = manual_run_payload(3723).unwrap();
    assert_eq!((p.zm_hour, p.zm_minute, p.zm_second), (1, 2, 3));
    assert_eq!(p.ztm_type, 0);
    assert_eq!(p.zem_hour, 0);
}

#[test]
fn manual_run_rejects_hours_beyond_one_byte() {
    assert!(manual_run_payload(999_999_999).is_none());
    assert!(manual_run_payload(256 * 3600).is_none());
    let p = manual_run_payload(256 * 3600 - 1).unwrap();
    assert_eq!((p.zm_hour, p.zm_minute, p.zm_second), (255, 59, 59));
}

#[test]
fn start_zone1_writes_ff86_then_ff83() {
    let plan = plan_command("start", 1, 7200, Second83Protocol::default()).unwrap();
    match plan {
        CommandPlan::Apply { zone_write, prot83 } => {
            let run = match zone_write {
                Some(ZoneRunWrite::Zone1(p)) => p,
                other => panic!("unexpected zone write {:?}", other),
            };
            assert_eq!(run.zm_hour, 2);
            assert_eq!(run.w_index, 4);
            assert_eq!(prot83.zone1_enable_manual, 1);
            assert_eq!(prot83.zone2_enable_manual, 0);
        }
        other => panic!("unexpected plan {:?}", other),
    }
}

#[test]
fn start_zone2_writes_ff8b_and_clears_special_setting() {
    let mut read = Second83Protocol::default();
    read.special_setting = 9;
    read.enabled = 1;
    let plan = plan_command("start", 2, 60, read).unwrap();
    let expected83 = Second83Protocol {
        enabled: 1,
        zone2_enable_manual: 1,
        special_setting: 0,
        ..Default::default()
    };
    let run = Second86Protocol {
        w_index: 4,
        zm_minute: 1,
        ..Default::default()
    };
    assert_eq!(
        plan,
        CommandPlan::Apply {
            zone_write: Some(ZoneRunWrite::Zone2(run)),
            prot83: expected83
        }
    );
}

#[test]
fn stop_zone2_clears_manual_flag_only() {
    let mut read = Second83Protocol::default();
    read.zone2_enable_manual = 1;
    read.zone1_enable_manual = 1;
    read.special_setting = 3;
    let plan = plan_command("stop", 2, 0, read).unwrap();
    let mut expected = read;
    expected.zone2_enable_manual = 0;
    assert_eq!(
        plan,
        CommandPlan::Apply {
            zone_write: None,
            prot83: expected
        }
    );
}

#[test]
fn start_with_overflowing_run_time_writes_nothing() {
    assert_eq!(
        plan_command("start", 1, 999_999_999, Second83Protocol::default()),
        Ok(CommandPlan::RunTimeTooLong)
    );
}

#[test]
fn status_and_unknown_commands() {
    assert_eq!(
        plan_command("status", 1, 0, Second83Protocol::default()),
        Ok(CommandPlan::StatusOnly)
    );
    assert_eq!(
        plan_command("water", 1, 0, Second83Protocol::default()),
        Err(CommandError::UnknownCommand)
    );
}

#[test]
fn zone_names_map_to_ids() {
    assert_eq!(zone_id_for_name("grass"), 2);
    assert_eq!(zone_id_for_name("flower"), 1);
    assert_eq!(zone_id_for_name("garden"), 1);
    assert_eq!(zone_id_for_name("Grass"), 1);
    assert_eq!(mqtt_zone_name(1), "garden");
    assert_eq!(mqtt_zone_name(2), "grass");
    for zone in [1u8, 2] {
        assert_eq!(zone_id_for_name(mqtt_zone_name(zone)), zone);
    }
}

#[test]
fn mqtt_on_off_with_duration_runs_that_long() {
    assert_eq!(
        plan_mqtt_command("on_off", "flower", Some(true), Some(1800), 7200),
        MqttPlan::Start {
            zone: 1,
            run_time_secs: 1800
        }
    );
}

#[test]
fn mqtt_on_off_without_duration_uses_default() {
    assert_eq!(
        plan_mqtt_command("on_off", "grass", Some(true), None, 7200),
        MqttPlan::Start {
            zone: 2,
            run_time_secs: 7200
        }
    );
}

#[test]
fn mqtt_off_ignores_duration() {
    assert_eq!(
        plan_mqtt_command("on_off", "flower", Some(false), Some(3600), 7200),
        MqttPlan::Stop { zone: 1 }
    );
    assert_eq!(
        plan_mqtt_command("on_off", "flower", None, Some(3600), 7200),
        MqttPlan::AcknowledgeOnly
    );
}

#[test]
fn mqtt_status_and_unknown() {
    assert_eq!(
        plan_mqtt_command("status", "flower", None, None, 7200),
        MqttPlan::Status { zone: 1 }
    );
    assert_eq!(
        plan_mqtt_command("unknown", "grass", None, None, 7200),
        MqttPlan::Ignore
    );
}

#[test]
fn zone_state_picks_requested_zone() {
    let mut data = vec![0; 20];
    data[11] = 1;
    let status = Second82Protocol::from_bytes(&data).unwrap();
    assert!(!zone_state(&status, 2));
    data[11] = 5;
    let status = Second82Protocol::from_bytes(&data).unwrap();
    assert!(zone_state(&status, 2));
    assert!(!zone_state(&status, 1));
}

#[test]
fn status_report_fields() {
    let cached = Some(Second82Protocol {
        enabled: true,
        suspend_watering: true,
        zone1_state: true,
        zone2_state: false,
    });
    let names = Some(ZoneNames {
        zone1: Some("Front Lawn".to_string()),
        zone2: Some("Back Yard".to_string()),
    });
    let report = status_report(true, &cached, &names);
    assert_eq!(report.status, 1);
    assert!(report.suspend_watering);
    assert_eq!(report.zone1_name.as_deref(), Some("Front Lawn"));
    assert_eq!(report.zone2_name.as_deref(), Some("Back Yard"));

    let report = status_report(false, &None, &Some(ZoneNames::default()));
    assert_eq!(report.status, 0);
    assert!(!report.suspend_watering);
    assert_eq!(report.zone1_name, None);
    assert_eq!(report.zone2_name, None);
}

#[test]
fn valve_transitions_report_changed_zones() {
    let off = Second82Protocol::default();
    let z1_on = Second82Protocol {
        zone1_state: true,
        ..Default::default()
    };
    let both_on = Second82Protocol {
        zone1_state: true,
        zone2_state: true,
        ..Default::default()
    };
    assert!(valve_transitions(&None, &z1_on).is_empty());
    assert!(valve_transitions(&Some(off), &off).is_empty());
    assert_eq!(
        valve_transitions(&Some(off), &z1_on),
        vec![ValveEvent { zone: 1, state: true }]
    );
    assert_eq!(
        valve_transitions(&Some(z1_on), &both_on),
        vec![ValveEvent { zone: 2, state: true }]
    );
    assert_eq!(
        valve_transitions(&Some(both_on), &off),
        vec![
            ValveEvent { zone: 1, state: false },
            ValveEvent { zone: 2, state: false }
        ]
    );
}

#[test]
fn password_is_padded_or_truncated() {
    assert_eq!(build_password(None), [0, 0, 0, 0]);
    assert_eq!(build_password(Some("ab")), [b'a', b'b', 0, 0]);
    assert_eq!(build_password(Some("abcd")), *b"abcd");
    assert_eq!(build_password(Some("abcdef")), *b"abcd");
    assert_eq!(build_password(Some("")), [0, 0, 0, 0]);
    assert_eq!(build_password(Some("é1")), [0xc3, 0xa9, b'1', 0]);
}

#[test]
fn dbus_controller_paths() {
    assert_eq!(
        SystemResilienceController::default().adapter_path(),
        "/org/bluez/hci0"
    );
    assert_eq!(
        SystemResilienceController::new("/org/bluez/hci1".to_string()).adapter_path(),
        "/org/bluez/hci1"
    );
}

#[test]
fn zone_names_reexported_at_root() {
    let names = rshunterbtt::ZoneNames {
        zone1: Some("a".to_string()),
        zone2: None,
    };
    assert_eq!(names.clone(), names);
}

#[test]
fn status_answers_from_cache_or_asks_for_a_read() {
    let cached = Some(Second82Protocol {
        enabled: true,
        suspend_watering: false,
        zone1_state: false,
        zone2_state: true,
    });
    assert_eq!(lookup_status(&cached, 1), Some(false));
    assert_eq!(lookup_status(&cached, 2), Some(true));
    assert_eq!(lookup_status(&None, 1), None);
}

#[test]
fn read_status_fills_only_an_empty_cache() {
    let read = Second82Protocol {
        enabled: true,
        suspend_watering: true,
        zone1_state: true,
        zone2_state: false,
    };
    let mut cache = None;
    assert!(fill_status_cache(&mut cache, read));
    assert_eq!(cache, Some(read));
    let newer = Second82Protocol { zone1_state: false, ..read };
    assert!(!fill_status_cache(&mut cache, newer));
    assert_eq!(cache, Some(read));
}
