use rshunterbtt::config::{Config, ConfigError, ConfigVar, ConfigVars};

fn required_vars() -> ConfigVars {
    ConfigVars {
        device_address: Some("11:22:33:44:55:66".to_string()),
        device_name: Some("test_device".to_string()),
        mqtt_broker: Some("localhost".to_string()),
        mqtt_port: Some("1883".to_string()),
        mqtt_sub_topic: Some("sub".to_string()),
        mqtt_pub_topic: Some("pub".to_string()),
        influxdb_url: Some("http://localhost:8086".to_string()),
        influxdb_token: Some("token".to_string()),
        influxdb_org: Some("org".to_string()),
        influxdb_bucket: Some("bucket".to_string()),
        device_password: None,
        default_run_seconds: None,
        conn_interval_ms: None,
    }
}

#[test]
fn default_run_seconds_defaults_to_7200_when_unset() {
    let mut vars = required_vars();
    vars.default_run_seconds = None;
    let config = Config::from_vars(vars).unwrap();
    assert_eq!(config.default_run_seconds, 7200);
}

#[test]
fn default_run_seconds_parses_when_set() {
    let mut vars = required_vars();
    vars.default_run_seconds = Some("1800".to_string());
    let config = Config::from_vars(vars).unwrap();
    assert_eq!(config.default_run_seconds, 1800);
}

#[test]
fn default_run_seconds_fails_when_invalid() {
    let mut vars = required_vars();
    vars.default_run_seconds = Some("not_a_number".to_string());
    assert!(Config::from_vars(vars).is_err());
}

#[test]
fn config_keeps_values() {
    let mut vars = required_vars();
    vars.device_password = Some("pw".to_string());
    vars.mqtt_port = None;
    let c = Config::from_vars(vars).unwrap();
    assert_eq!(c.device_address, "11:22:33:44:55:66");
    assert_eq!(c.device_name, "test_device");
    assert_eq!(c.mqtt_port, 1883);
    assert_eq!(c.mqtt_pub_topic, "pub");
    assert_eq!(c.influxdb_bucket, "bucket");
    assert_eq!(c.device_password.as_deref(), Some("pw"));
    assert_eq!(c.conn_interval_ms, 4000);
}

#[test]
fn missing_variables_are_reported_in_order() {
    let mut vars = required_vars();
    vars.device_name = None;
    vars.influxdb_url = None;
    assert_eq!(
        Config::from_vars(vars).unwrap_err(),
        ConfigError::Missing(ConfigVar::DeviceName)
    );
    let mut vars = required_vars();
    vars.influxdb_bucket = None;
    let err = Config::from_vars(vars).unwrap_err();
    assert_eq!(err, ConfigError::Missing(ConfigVar::InfluxdbBucket));
    match err {
        ConfigError::Missing(var) => assert_eq!(var.env_name(), "INFLUXDB_BUCKET"),
        _ => unreachable!(),
    }
}

#[test]
fn numbers_parse_as_rust_does() {
    let cases: Vec<(&str, Option<u16>)> = vec![
        ("1883", Some(1883)),
        ("+1883", Some(1883)),
        ("0", Some(0)),
        ("65535", Some(65535)),
        ("65536", None),
        ("", None),
        ("+", None),
        ("-1", None),
        (" 1883", None),
        ("18a3", None),
        ("00001", Some(1)),
    ];
    for (text, expected) in cases {
        let mut vars = required_vars();
        vars.mqtt_port = Some(text.to_string());
        let got = Config::from_vars(vars);
        assert_eq!(got.is_ok(), text.parse::<u16>().is_ok(), "input {:?}", text);
        match expected {
            Some(p) => assert_eq!(got.unwrap().mqtt_port, p, "input {:?}", text),
            None => assert_eq!(
                got.unwrap_err(),
                ConfigError::InvalidNumber(ConfigVar::MqttPort),
                "input {:?}",
                text
            ),
        }
    }
    let mut vars = required_vars();
    vars.default_run_seconds = Some("4294967295".to_string());
    assert_eq!(Config::from_vars(vars).unwrap().default_run_seconds, u32::MAX);
    let mut vars = required_vars();
    vars.default_run_seconds = Some("4294967296".to_string());
    assert_eq!(
        Config::from_vars(vars).unwrap_err(),
        ConfigError::InvalidNumber(ConfigVar::DefaultRunSeconds)
    );
}

#[test]
fn conn_interval_is_read_when_set() {
    let mut vars = required_vars();
    vars.conn_interval_ms = Some("1000".to_string());
    assert_eq!(Config::from_vars(vars).unwrap().conn_interval_ms, 1000);
    let mut vars = required_vars();
    vars.conn_interval_ms = Some("fast".to_string());
    assert_eq!(
        Config::from_vars(vars).unwrap_err(),
        ConfigError::InvalidNumber(ConfigVar::ConnIntervalMs)
    );
}
