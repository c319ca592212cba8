use rshunterbtt::hci::{
    bdaddr_matches, classify_conn_update_event, conn_update_params, event_payload,
    hci_command_packet, interval_ms_from_units, interval_units, timeout_units, ConnUpdateEvent,
    with_retry, HciFrameError, HCI_LE_CONN_UPDATE,
};
use rshunterbtt::hci_monitor::{
    decode_hci_event, decode_monitor_packet, IntervalGuard, MonitorEvent, GUARD_REAPPLY_MIN_GAP,
};

#[test]
fn test_interval_units() {
    assert_eq!(interval_units(4000), 3200);
    assert_eq!(interval_units(2000), 1600);
    assert_eq!(interval_units(1000), 800);
    assert_eq!(interval_units(100), 80);
}

#[test]
fn test_timeout_units() {
    assert_eq!(timeout_units(20000), 2000);
    assert_eq!(timeout_units(10000), 1000);
    assert_eq!(timeout_units(3000), 300);
}

#[test]
fn interval_units_round_down_and_convert_back() {
    assert_eq!(interval_units(7), 5);
    assert_eq!(interval_units(u16::MAX), 52428);
    assert_eq!(interval_ms_from_units(800), 1000);
    assert_eq!(interval_ms_from_units(39), 48);
    assert_eq!(interval_ms_from_units(interval_units(1000)), 1000);
}

#[test]
fn conn_update_params_layout() {
    let params = conn_update_params(0x0040, 1000);
    assert_eq!(
        params,
        vec![0x40, 0x00, 0x20, 0x03, 0x20, 0x03, 0x00, 0x00, 0xd0, 0x07, 0x01, 0x00, 0x01, 0x00]
    );
}

#[test]
fn command_packet_frames_opcode_and_length() {
    let packet = hci_command_packet(HCI_LE_CONN_UPDATE, &[0xaa, 0xbb]);
    assert_eq!(packet, vec![0x01, 0x13, 0x20, 0x02, 0xaa, 0xbb]);
    let params = conn_update_params(1, 4000);
    let packet = hci_command_packet(HCI_LE_CONN_UPDATE, &params);
    assert_eq!(packet.len(), 18);
    assert_eq!(packet[3], 14);
    assert_eq!(&packet[4..], &params[..]);
}

#[test]
fn event_payload_strips_type_byte() {
    assert_eq!(event_payload(&[0x04, 0x0e, 0x01]), Ok(vec![0x0e, 0x01]));
    assert_eq!(
        event_payload(&[0x02, 0x0e, 0x01]),
        Err(HciFrameError::UnexpectedFrameType(0x02))
    );
    assert_eq!(
        event_payload(&[0x04]),
        Err(HciFrameError::UnexpectedFrameType(0x04))
    );
    assert_eq!(event_payload(&[]), Err(HciFrameError::UnexpectedFrameType(0)));
}

#[test]
fn classifies_connection_update_events() {
    let handle = 0x0040;
    let complete = [0x3e, 0x0a, 0x03, 0x00, 0x40, 0x00, 0x20, 0x03, 0x00, 0x00];
    assert_eq!(
        classify_conn_update_event(&complete, handle),
        ConnUpdateEvent::UpdateComplete(800)
    );
    let other_link = [0x3e, 0x0a, 0x03, 0x00, 0x41, 0x00, 0x20, 0x03];
    assert_eq!(
        classify_conn_update_event(&other_link, handle),
        ConnUpdateEvent::Unrelated
    );
    let rejected = [0x3e, 0x0a, 0x03, 0x1e, 0x40, 0x00, 0x20, 0x03];
    assert_eq!(
        classify_conn_update_event(&rejected, handle),
        ConnUpdateEvent::UpdateRejected(0x1e)
    );
    let cmd_complete = [0x0e, 0x04, 0x01, 0x13, 0x20, 0x0c];
    assert_eq!(
        classify_conn_update_event(&cmd_complete, handle),
        ConnUpdateEvent::CommandCompleteFailed(0x0c)
    );
    let cmd_status = [0x0f, 0x04, 0x12, 0x01, 0x13, 0x20];
    assert_eq!(
        classify_conn_update_event(&cmd_status, handle),
        ConnUpdateEvent::CommandStatusFailed(0x12)
    );
    let cmd_status_ok = [0x0f, 0x04, 0x00, 0x01, 0x13, 0x20];
    assert_eq!(
        classify_conn_update_event(&cmd_status_ok, handle),
        ConnUpdateEvent::Unrelated
    );
    assert_eq!(classify_conn_update_event(&[0x3e], handle), ConnUpdateEvent::Unrelated);
}

#[test]
fn bdaddr_matches_configured_address() {
    let bdaddr = [0x20, 0x6d, 0x53, 0xed, 0x04, 0x18];
    assert!(bdaddr_matches(&bdaddr, "18:04:ED:53:6D:20"));
    assert!(bdaddr_matches(&bdaddr, "18:04:ed:53:6d:20"));
    assert!(bdaddr_matches(&bdaddr, "1804ED536D20"));
    assert!(!bdaddr_matches(&bdaddr, "18:04:ED:53:6D:21"));
    assert!(!bdaddr_matches(&bdaddr, "20:6D:53:ED:04:18"));
    assert!(!bdaddr_matches(&bdaddr, "18:04:ED:53:6D:20:00"));
    assert!(!bdaddr_matches(&bdaddr, ""));
}

fn monitor_frame(opcode: u16, payload: &[u8]) -> Vec<u8> {
    let mut frame = Vec::with_capacity(6 + payload.len());
    frame.extend_from_slice(&opcode.to_le_bytes());
    frame.extend_from_slice(&0u16.to_le_bytes());
    frame.extend_from_slice(&(payload.len() as u16).to_le_bytes());
    frame.extend_from_slice(payload);
    frame
}

fn event_pkt(evt: &[u8]) -> Vec<u8> {
    monitor_frame(3, evt)
}

#[test]
fn test_decodes_disconnection_complete() {
    let evt = [0x05u8, 0x04, 0x00, 0x00, 0x40, 0x13];
    assert_eq!(
        decode_monitor_packet(&event_pkt(&evt)),
        Some(MonitorEvent::DisconnectionComplete { reason: 0x13 })
    );
}

#[test]
fn test_decodes_le_set_random_address_status() {
    let evt = [0x0fu8, 0x04, 0x01, 0x01, 0x05, 0x20];
    assert_eq!(
        decode_monitor_packet(&event_pkt(&evt)),
        Some(MonitorEvent::SetRandomAddressStatus { status: 0x01 })
    );
}

#[test]
fn test_ignores_unrelated_traffic() {
    let evt = [0x3eu8, 0x02, 0x01, 0x02];
    assert_eq!(decode_monitor_packet(&event_pkt(&evt)), None);
    let cmd = [0x01u8, 0x05, 0x20, 0x06, 0xaa, 0xbb, 0xcc, 0xdd, 0xee, 0xff];
    assert_eq!(decode_monitor_packet(&monitor_frame(2, &cmd)), None);
}

#[test]
fn monitor_frames_shorter_than_declared_are_ignored() {
    let mut frame = event_pkt(&[0x05u8, 0x04, 0x00, 0x00, 0x40, 0x13]);
    frame.pop();
    assert_eq!(decode_monitor_packet(&frame), None);
    assert_eq!(decode_monitor_packet(&[0x03, 0x00, 0x00]), None);
    assert_eq!(decode_hci_event(&[0x05]), None);
    assert_eq!(decode_hci_event(&[0x0f, 0x04, 0x01, 0x01, 0x06, 0x20]), None);
}

#[test]
fn decodes_connection_update_complete() {
    let evt = [0x3eu8, 0x0a, 0x03, 0x00, 0x40, 0x00, 0x20, 0x03, 0x00, 0x00, 0x90, 0x01];
    assert_eq!(
        decode_monitor_packet(&event_pkt(&evt)),
        Some(MonitorEvent::ConnectionUpdateComplete { status: 0, handle: 0x40, interval: 800 })
    );
    let failed = [0x3eu8, 0x0a, 0x03, 0x3b, 0x41, 0x00, 0x18, 0x00, 0x00, 0x00, 0x90, 0x01];
    assert_eq!(
        decode_hci_event(&failed),
        Some(MonitorEvent::ConnectionUpdateComplete { status: 0x3b, handle: 0x41, interval: 24 })
    );
    assert_eq!(decode_hci_event(&[0x3e, 0x0a, 0x03, 0x00, 0x40, 0x00, 0x20]), None);
}

#[test]
fn interval_guard_reapplies_when_moved() {
    let mut guard = IntervalGuard::new(4000);
    let t0: i128 = 1_000_000_000_000;
    assert!(!guard.on_update(0, 3200, t0));
    assert!(!guard.on_update(0x3b, 24, t0));
    assert!(guard.on_update(0, 24, t0));
    assert!(!guard.on_update(0, 24, t0 + GUARD_REAPPLY_MIN_GAP - 1));
    assert!(guard.on_update(0, 24, t0 + GUARD_REAPPLY_MIN_GAP));
    assert!(!guard.on_update(0, 3200, t0 + 10 * GUARD_REAPPLY_MIN_GAP));
}

fn short_pause() {}

#[test]
fn test_with_retry_succeeds_first_attempt() {
    let mut calls = 0;
    let mut attempt = || {
        calls += 1;
        Ok::<u16, String>(42u16)
    };
    let outcome = with_retry(3, &mut attempt, &mut short_pause);
    assert_eq!(outcome.result.unwrap().unwrap(), 42);
    assert_eq!(calls, 1);
    assert_eq!(outcome.calls, 1);
}

#[test]
fn test_with_retry_succeeds_after_rejections() {
    let mut calls = 0;
    let mut attempt = || {
        calls += 1;
        if calls < 3 {
            Err("rejected".to_string())
        } else {
            Ok(42u16)
        }
    };
    let outcome = with_retry(3, &mut attempt, &mut short_pause);
    assert_eq!(outcome.result.unwrap().unwrap(), 42);
    assert_eq!(calls, 3);
    assert_eq!(outcome.calls, 3);
}

#[test]
fn test_with_retry_gives_up_after_cap() {
    let mut calls = 0;
    let mut attempt = || {
        calls += 1;
        Err::<u16, _>("rejected".to_string())
    };
    let outcome = with_retry(3, &mut attempt, &mut short_pause);
    assert!(outcome.result.unwrap().is_err());
    assert_eq!(calls, 3);
    assert_eq!(outcome.calls, 3);
}

#[test]
fn with_retry_pauses_only_between_attempts() {
    let mut pauses = 0;
    let mut attempt = || Err::<u16, _>("rejected");
    let mut pause = || pauses += 1;
    let outcome = with_retry(3, &mut attempt, &mut pause);
    assert_eq!(outcome.result, Some(Err("rejected")));
    assert_eq!(outcome.calls, 3);
    assert_eq!(pauses, 2);
    assert_eq!(outcome.pauses, 2);
    let mut never = || Ok::<u16, &str>(1);
    let outcome = with_retry(0, &mut never, &mut || {});
    assert!(outcome.result.is_none());
    assert_eq!(outcome.calls, 0);
}

#[test]
fn with_retry_stops_at_first_success() {
    let mut calls = 0;
    let mut pauses = 0;
    let mut attempt = || {
        calls += 1;
        if calls == 2 {
            Ok::<u16, &str>(7)
        } else {
            Err("rejected")
        }
    };
    let mut pause = || pauses += 1;
    let outcome = with_retry(5, &mut attempt, &mut pause);
    assert_eq!(outcome.result, Some(Ok(7)));
    assert_eq!(outcome.calls, 2);
    assert_eq!(outcome.pauses, 1);
    assert_eq!(calls, 2);
    assert_eq!(pauses, 1);
}
