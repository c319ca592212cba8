use rshunterbtt::protocol::{
    decode_zone_name, protocol_id_to_uuid, zone_state_is_on, ProtocolError, Second82Protocol,
    Second83Protocol, Second86Protocol, ZoneNameError,
};

#[test]
fn test_protocol_id_to_uuid() {
    assert_eq!(
        protocol_id_to_uuid(0xff80),
        "0000ff80-0000-1000-8000-00805f9b34fb"
    );
    assert_eq!(
        protocol_id_to_uuid(65411),
        "0000ff83-0000-1000-8000-00805f9b34fb"
    );
}

#[test]
fn protocol_uuid_covers_every_nibble() {
    assert_eq!(protocol_id_to_uuid(0), "00000000-0000-1000-8000-00805f9b34fb");
    assert_eq!(protocol_id_to_uuid(0x2a19), "00002a19-0000-1000-8000-00805f9b34fb");
    assert_eq!(protocol_id_to_uuid(0xabcd), "0000abcd-0000-1000-8000-00805f9b34fb");
    assert_eq!(protocol_id_to_uuid(0xffff), "0000ffff-0000-1000-8000-00805f9b34fb");
    assert_eq!(protocol_id_to_uuid(0x1234), "00001234-0000-1000-8000-00805f9b34fb");
}

#[test]
fn test_second83_short_data() {
    let data = vec![0; 11];
    assert!(Second83Protocol::from_bytes(&data).is_err());
}

#[test]
fn test_second86_short_data() {
    let data = vec![0; 16];
    assert!(Second86Protocol::from_bytes(&data).is_err());
}

#[test]
fn test_second82_short_data() {
    let data = vec![0; 13];
    assert!(Second82Protocol::from_bytes(&data).is_err());
}

#[test]
fn short_payloads_report_data_too_short() {
    assert_eq!(
        Second82Protocol::from_bytes(&[]),
        Err(ProtocolError::DataTooShort)
    );
    assert_eq!(
        Second83Protocol::from_bytes(&[1; 11]),
        Err(ProtocolError::DataTooShort)
    );
    assert_eq!(
        Second86Protocol::from_bytes(&[1; 16]),
        Err(ProtocolError::DataTooShort)
    );
}

#[test]
fn test_second82_offset_correctness() {
    let mut data = vec![0; 14];
    data[4] = 1;
    data[8] = 1;
    data[10] = 0;
    data[11] = 1;
    let parsed = Second82Protocol::from_bytes(&data).unwrap();
    assert!(!parsed.zone1_state);
    assert!(!parsed.zone2_state);
}

#[test]
fn test_second82_zone_state_enum() {
    for on in [5u8, 9, 17] {
        let mut data = vec![0; 14];
        data[10] = on;
        data[11] = on;
        let parsed = Second82Protocol::from_bytes(&data).unwrap();
        assert!(parsed.zone1_state, "state {} should be on", on);
        assert!(parsed.zone2_state, "state {} should be on", on);
    }
    for off in [0u8, 1, 2] {
        let mut data = vec![0; 14];
        data[10] = off;
        data[11] = off;
        let parsed = Second82Protocol::from_bytes(&data).unwrap();
        assert!(!parsed.zone1_state, "state {} should be off", off);
        assert!(!parsed.zone2_state, "state {} should be off", off);
    }
}

#[test]
fn zone_state_is_on_only_for_watering_values() {
    for v in 0u8..=255 {
        assert_eq!(zone_state_is_on(v), v == 5 || v == 9 || v == 17, "value {}", v);
    }
}

#[test]
fn test_second82_enabled_and_suspend_flags() {
    let mut data = vec![0; 14];
    data[0] = 1;
    data[1] = 1;
    let parsed = Second82Protocol::from_bytes(&data).unwrap();
    assert!(parsed.enabled);
    assert!(parsed.suspend_watering);
    assert!(!parsed.zone1_state);
    assert!(!parsed.zone2_state);
}

#[test]
fn second82_ignores_bytes_past_fourteen() {
    let mut data = vec![0; 20];
    data[0] = 7;
    data[11] = 9;
    data[14] = 5;
    let parsed = Second82Protocol::from_bytes(&data).unwrap();
    assert_eq!(
        parsed,
        Second82Protocol {
            enabled: true,
            suspend_watering: false,
            zone1_state: false,
            zone2_state: true,
        }
    );
}

#[test]
fn test_second83_roundtrip() {
    let payload = Second83Protocol {
        enabled: 1,
        suspend_watering: 0,
        zone1_enabled: 1,
        zone1_mode: 0,
        zone1_enable_manual: 1,
        zone2_enabled: 0,
        zone2_mode: 0,
        zone2_enable_manual: 0,
        run_all_hh: 0,
        run_all_mm: 30,
        run_all_ss: 0,
        special_setting: 0,
    };
    let bytes = payload.to_bytes();
    let decoded = Second83Protocol::from_bytes(&bytes).unwrap();
    assert_eq!(payload, decoded);
}

#[test]
fn test_second86_roundtrip() {
    let payload = Second86Protocol {
        w_index: 4,
        zm_hour: 1,
        zm_minute: 2,
        zm_second: 3,
        ..Default::default()
    };
    let bytes = payload.to_bytes();
    let decoded = Second86Protocol::from_bytes(&bytes).unwrap();
    assert_eq!(payload, decoded);
}

#[test]
fn second83_bytes_follow_field_order() {
    let bytes: Vec<u8> = (1..=12).collect();
    let p = Second83Protocol::from_bytes(&bytes).unwrap();
    assert_eq!(p.enabled, 1);
    assert_eq!(p.zone1_enable_manual, 5);
    assert_eq!(p.zone2_enable_manual, 8);
    assert_eq!(p.special_setting, 12);
    assert_eq!(p.to_bytes(), bytes);
}

#[test]
fn second86_encode_of_decode_keeps_first_seventeen_bytes() {
    let bytes: Vec<u8> = (10..30).collect();
    let p = Second86Protocol::from_bytes(&bytes).unwrap();
    assert_eq!(p.w_index, 10);
    assert_eq!(p.zm_hour, 21);
    assert_eq!(p.zem_second, 26);
    assert_eq!(p.to_bytes(), bytes[..17].to_vec());
}

#[test]
fn test_decode_zone_name_normal() {
    let data = b"Front Lawn\x00\x00\x00";
    assert_eq!(decode_zone_name(data).unwrap(), "Front Lawn");
}

#[test]
fn test_decode_zone_name_empty() {
    assert!(decode_zone_name(&[]).is_err());
    assert!(decode_zone_name(&[0x00]).is_err());
}

#[test]
fn test_decode_zone_name_null_padded() {
    let mut data = vec![0u8; 20];
    data[..9].copy_from_slice(b"Back Yard");
    assert_eq!(decode_zone_name(&data).unwrap(), "Back Yard");
}

#[test]
fn test_decode_zone_name_invalid_utf8() {
    let data = b"\xff\xfe\x00";
    assert!(decode_zone_name(data).is_err());
}

#[test]
fn zone_name_errors_are_distinguished() {
    assert_eq!(decode_zone_name(&[0x00, b'a']), Err(ZoneNameError::Empty));
    assert_eq!(decode_zone_name(b"\xff\xfe\x00"), Err(ZoneNameError::InvalidUtf8));
}

#[test]
fn zone_name_is_cut_at_twenty_bytes() {
    let data = b"abcdefghijklmnopqrstuvwxyz";
    assert_eq!(decode_zone_name(data).unwrap(), "abcdefghijklmnopqrst");
}

#[test]
fn zone_name_keeps_multibyte_characters() {
    let data = "Gärten".as_bytes();
    assert_eq!(decode_zone_name(data).unwrap(), "Gärten");
}
