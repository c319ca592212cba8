//! The bridge's configuration, built from the values of its environment
//! variables.

use vstd::prelude::*;
use vstd::string::*;
use vstd::utf8::*;

verus! {

/// The bridge's settings.
#[derive(Debug, Clone)]
pub struct Config {
    pub device_address: String,
    pub device_name: String,
    pub mqtt_broker: String,
    pub mqtt_port: u16,
    pub mqtt_sub_topic: String,
    pub mqtt_pub_topic: String,
    pub influxdb_url: String,
    pub influxdb_token: String,
    pub influxdb_org: String,
    pub influxdb_bucket: String,
    pub device_password: Option<String>,
    pub default_run_seconds: u32,
    /// Requested BLE connection interval, in milliseconds.
    pub conn_interval_ms: u16,
}

/// The values of the configuration's environment variables, absent when a
/// variable is unset (or not Unicode).
#[derive(Debug, Clone, Default)]
pub struct ConfigVars {
    pub device_address: Option<String>,
    pub device_name: Option<String>,
    pub mqtt_broker: Option<String>,
    pub mqtt_port: Option<String>,
    pub mqtt_sub_topic: Option<String>,
    pub mqtt_pub_topic: Option<String>,
    pub influxdb_url: Option<String>,
    pub influxdb_token: Option<String>,
    pub influxdb_org: Option<String>,
    pub influxdb_bucket: Option<String>,
    pub device_password: Option<String>,
    pub default_run_seconds: Option<String>,
    pub conn_interval_ms: Option<String>,
}

/// A configuration variable.
#[derive(Debug, Clone, Copy, PartialEq, Eq, Structural)]
pub enum ConfigVar {
    DeviceAddress,
    DeviceName,
    MqttBroker,
    MqttPort,
    MqttSubTopic,
    MqttPubTopic,
    InfluxdbUrl,
    InfluxdbToken,
    InfluxdbOrg,
    InfluxdbBucket,
    DefaultRunSeconds,
    ConnIntervalMs,
}

/// Why the configuration could not be built.
#[derive(Debug, Clone, Copy, PartialEq, Eq, Structural)]
pub enum ConfigError {
    /// A required variable is not set.
    Missing(ConfigVar),
    /// A numeric variable does not hold a number of its type.
    InvalidNumber(ConfigVar),
}

/// Port used when `MQTT_PORT` is unset.
pub const DEFAULT_MQTT_PORT: u16 = 1883;

/// Run duration, in seconds, used when `DEFAULT_RUN_SECONDS` is unset: 2 hours.
pub const DEFAULT_RUN_SECONDS: u32 = 7200;

/// Connection interval, in milliseconds, used when `CONN_INTERVAL_MS` is unset.
pub const DEFAULT_CONN_INTERVAL_MS: u16 = 4000;

/// Whether a byte is an ASCII decimal digit.
pub open spec fn is_ascii_digit(b: u8) -> bool {
    48 <= b <= 57
}

/// The value of a string of decimal digits.
pub open spec fn digits_value(d: Seq<u8>) -> nat
    decreases d.len(),
{
    if d.len() == 0 {
        0
    } else {
        digits_value(d.drop_last()) * 10 + (d.last() - 48) as nat
    }
}

/// The digits of an unsigned number: the text after one optional leading `+`.
pub open spec fn unsigned_digits(b: Seq<u8>) -> Seq<u8> {
    if b.len() > 0 && b[0] == 43 {
        b.drop_first()
    } else {
        b
    }
}

/// An unsigned decimal number no greater than `max`, as Rust's integer
/// `FromStr` reads one: an optional `+`, then one or more ASCII digits and
/// nothing else.
pub open spec fn spec_parse_unsigned(b: Seq<u8>, max: nat) -> Option<nat> {
    let d = unsigned_digits(b);
    if d.len() > 0 && (forall|i: int| 0 <= i < d.len() ==> is_ascii_digit(#[trigger] d[i]))
        && digits_value(d) <= max {
        Some(digits_value(d))
    } else {
        None
    }
}

proof fn lemma_digits_value_prefix(d: Seq<u8>, k: int)
    requires
        0 <= k <= d.len(),
        forall|i: int| 0 <= i < d.len() ==> is_ascii_digit(#[trigger] d[i]),
    ensures
        digits_value(d) >= digits_value(d.take(k)),
    decreases d.len(),
{
    if k < d.len() {
        let p = d.drop_last();
        assert(forall|i: int| 0 <= i < p.len() ==> p[i] == d[i]);
        lemma_digits_value_prefix(p, k);
        assert(p.take(k) =~= d.take(k));
    } else {
        assert(d.take(k) =~= d);
    }
}

/// How numbers are read: a lone digit is its value; appending a digit to a
/// number multiplies it by ten and adds the digit (while the result stays
/// within `max`); text that is empty, just `+`, or holds a byte other than
/// a digit after the optional leading `+` is no number; and no number
/// exceeds `max`.
pub proof fn lemma_parse_unsigned_reads_decimal(b: Seq<u8>, c: u8, max: nat)
    ensures
        48 <= c <= 57 && c - 48 <= max ==> spec_parse_unsigned(seq![c], max) == Some(
            (c - 48) as nat,
        ),
        match spec_parse_unsigned(b, max) {
            Some(n) => (48 <= c <= 57 && n * 10 + (c - 48) <= max) ==> spec_parse_unsigned(
                b.push(c),
                max,
            ) == Some((n * 10 + (c - 48)) as nat),
            None => true,
        },
        (b.len() == 0 || b == seq![43u8]) ==> spec_parse_unsigned(b, max) is None,
        (exists|i: int|
            0 <= i < b.len() && !(48 <= #[trigger] b[i] <= 57) && !(i == 0 && b[i] == 43))
            ==> spec_parse_unsigned(b, max) is None,
        spec_parse_unsigned(b, max) matches Some(n) ==> n <= max,
{
    let one = seq![c];
    if 48 <= c <= 57 {
        assert(unsigned_digits(one) == one);
        assert(one.drop_last() =~= Seq::<u8>::empty());
        assert(digits_value(Seq::<u8>::empty()) == 0);
        assert(one.last() == c);
        assert(digits_value(one) == digits_value(one.drop_last()) * 10 + (one.last() - 48) as nat);
        assert(digits_value(one) == (c - 48) as nat);
    }
    if spec_parse_unsigned(b, max) is Some {
        let d = unsigned_digits(b);
        assert(b.len() > 0);
        assert(unsigned_digits(b.push(c)) =~= d.push(c));
        assert(d.push(c).drop_last() =~= d);
    }
    if b == seq![43u8] {
        assert(unsigned_digits(b).len() == 0);
    }
    if exists|i: int| 0 <= i < b.len() && !(48 <= #[trigger] b[i] <= 57) && !(i == 0 && b[i]
        == 43) {
        let i = choose|i: int|
            0 <= i < b.len() && !(48 <= #[trigger] b[i] <= 57) && !(i == 0 && b[i] == 43);
        let d = unsigned_digits(b);
        if b.len() > 0 && b[0] == 43 {
            assert(d[i - 1] == b[i]);
        } else {
            assert(d[i] == b[i]);
        }
    }
}

fn parse_unsigned(s: &str, max: u64) -> (value: Option<u64>)
    ensures
        match value {
            Some(v) => spec_parse_unsigned(s.spec_bytes(), max as nat) == Some(v as nat),
            None => spec_parse_unsigned(s.spec_bytes(), max as nat) is None,
        },
{
    let bytes = s.as_bytes();
    let ghost b = bytes@;
    let start: usize = if bytes.len() > 0 && bytes[0] == 43 {
        1
    } else {
        0
    };
    let ghost d = unsigned_digits(b);
    assert(d =~= b.subrange(start as int, b.len() as int));
    if bytes.len() == start {
        return None;
    }
    let mut acc: u64 = 0;
    let mut i: usize = start;
    assert(d.take(0) =~= Seq::<u8>::empty());
    while i < bytes.len()
        invariant
            start <= i <= bytes.len(),
            b == bytes@,
            b == s.spec_bytes(),
            d == unsigned_digits(b),
            d == b.subrange(start as int, b.len() as int),
            acc <= max,
            acc == digits_value(d.take(i - start)),
            forall|j: int| 0 <= j < i - start ==> is_ascii_digit(#[trigger] d[j]),
        decreases bytes.len() - i,
    {
        let c = bytes[i];
        assert(d[i - start] == c);
        if c < 48 || c > 57 {
            return None;
        }
        let dig = (c - 48) as u64;
        assert(d.take(i - start + 1).drop_last() =~= d.take(i - start));
        let ghost next = digits_value(d.take(i - start + 1));
        assert(next == acc * 10 + dig);
        if dig > max || acc > (max - dig) / 10 {
            proof {
                assert(acc * 10 + dig > max) by (nonlinear_arith)
                    requires
                        dig > max || acc > (max - dig) / 10,
                        acc <= max,
                        dig <= 9,
                ;
                if forall|j: int| 0 <= j < d.len() ==> is_ascii_digit(#[trigger] d[j]) {
                    lemma_digits_value_prefix(d, i - start + 1);
                }
            }
            return None;
        }
        assert(acc * 10 + dig <= max) by (nonlinear_arith)
            requires
                dig <= max,
                acc <= (max - dig) / 10,
        ;
        acc = acc * 10 + dig;
        i = i + 1;
    }
    assert(d.take(d.len() as int) =~= d);
    Some(acc)
}

/// The value of an optional numeric variable: its default when unset, else
/// its parsed value (none when it is not a number no greater than `max`).
pub open spec fn spec_number_var(var: Option<String>, default: nat, max: nat) -> Option<nat> {
    match var {
        None => Some(default),
        Some(s) => spec_parse_unsigned(encode_utf8(s@), max),
    }
}

fn number_var(var: &Option<String>, default: u64, max: u64) -> (value: Option<u64>)
    requires
        default <= max,
    ensures
        match value {
            Some(v) => spec_number_var(*var, default as nat, max as nat) == Some(v as nat),
            None => spec_number_var(*var, default as nat, max as nat) is None,
        },
{
    match var {
        None => Some(default),
        Some(s) => parse_unsigned(s.as_str(), max),
    }
}

/// The first problem with the variables, in the order they are read:
/// device address, device name, broker, port, the two topics, the four
/// InfluxDB settings, the default run duration, then the connection interval.
pub open spec fn spec_config_error(v: ConfigVars) -> Option<ConfigError> {
    if v.device_address is None {
        Some(ConfigError::Missing(ConfigVar::DeviceAddress))
    } else if v.device_name is None {
        Some(ConfigError::Missing(ConfigVar::DeviceName))
    } else if v.mqtt_broker is None {
        Some(ConfigError::Missing(ConfigVar::MqttBroker))
    } else if spec_number_var(v.mqtt_port, DEFAULT_MQTT_PORT as nat, u16::MAX as nat) is None {
        Some(ConfigError::InvalidNumber(ConfigVar::MqttPort))
    } else if v.mqtt_sub_topic is None {
        Some(ConfigError::Missing(ConfigVar::MqttSubTopic))
    } else if v.mqtt_pub_topic is None {
        Some(ConfigError::Missing(ConfigVar::MqttPubTopic))
    } else if v.influxdb_url is None {
        Some(ConfigError::Missing(ConfigVar::InfluxdbUrl))
    } else if v.influxdb_token is None {
        Some(ConfigError::Missing(ConfigVar::InfluxdbToken))
    } else if v.influxdb_org is None {
        Some(ConfigError::Missing(ConfigVar::InfluxdbOrg))
    } else if v.influxdb_bucket is None {
        Some(ConfigError::Missing(ConfigVar::InfluxdbBucket))
    } else if spec_number_var(v.default_run_seconds, DEFAULT_RUN_SECONDS as nat, u32::MAX as nat) is None {
        Some(ConfigError::InvalidNumber(ConfigVar::DefaultRunSeconds))
    } else if spec_number_var(v.conn_interval_ms, DEFAULT_CONN_INTERVAL_MS as nat, u16::MAX as nat) is None {
        Some(ConfigError::InvalidNumber(ConfigVar::ConnIntervalMs))
    } else {
        None
    }
}

/// With every required variable set and the numeric ones unset, the
/// configuration is built; a missing device address is always the error
/// reported first; and an unset numeric variable reads as its default
/// (port 1883, run 7200 seconds, interval 4000 ms).
pub proof fn lemma_config_requirements(v: ConfigVars)
    ensures
        (v.device_address is Some && v.device_name is Some && v.mqtt_broker is Some
            && v.mqtt_sub_topic is Some && v.mqtt_pub_topic is Some && v.influxdb_url is Some
            && v.influxdb_token is Some && v.influxdb_org is Some && v.influxdb_bucket is Some
            && v.mqtt_port is None && v.default_run_seconds is None && v.conn_interval_ms is None)
            ==> spec_config_error(v) is None,
        v.device_address is None ==> spec_config_error(v) == Some(
            ConfigError::Missing(ConfigVar::DeviceAddress),
        ),
        v.mqtt_port is None ==> spec_number_var(v.mqtt_port, DEFAULT_MQTT_PORT as nat, u16::MAX as nat)
            == Some(1883nat),
        v.default_run_seconds is None ==> spec_number_var(
            v.default_run_seconds,
            DEFAULT_RUN_SECONDS as nat,
            u32::MAX as nat,
        ) == Some(7200nat),
        v.conn_interval_ms is None ==> spec_number_var(
            v.conn_interval_ms,
            DEFAULT_CONN_INTERVAL_MS as nat,
            u16::MAX as nat,
        ) == Some(4000nat),
{
}

impl Config {
    /// Builds the configuration from its variables: the required ones must
    /// be set, `MQTT_PORT` defaults to 1883, `DEFAULT_RUN_SECONDS` to 7200,
    /// `CONN_INTERVAL_MS` to 4000, and `DEVICE_PASSWORD` may be absent.
    pub fn from_vars(vars: ConfigVars) -> (res: Result<Config, ConfigError>)
        ensures
            match res {
                Err(e) => spec_config_error(vars) == Some(e),
                Ok(c) => {
                    &&& spec_config_error(vars) is None
                    &&& Some(c.device_address) == vars.device_address
                    &&& Some(c.device_name) == vars.device_name
                    &&& Some(c.mqtt_broker) == vars.mqtt_broker
                    &&& spec_number_var(vars.mqtt_port, DEFAULT_MQTT_PORT as nat, u16::MAX as nat)
                        == Some(c.mqtt_port as nat)
                    &&& Some(c.mqtt_sub_topic) == vars.mqtt_sub_topic
                    &&& Some(c.mqtt_pub_topic) == vars.mqtt_pub_topic
                    &&& Some(c.influxdb_url) == vars.influxdb_url
                    &&& Some(c.influxdb_token) == vars.influxdb_token
                    &&& Some(c.influxdb_org) == vars.influxdb_org
                    &&& Some(c.influxdb_bucket) == vars.influxdb_bucket
                    &&& c.device_password == vars.device_password
                    &&& spec_number_var(
                        vars.default_run_seconds,
                        DEFAULT_RUN_SECONDS as nat,
                        u32::MAX as nat,
                    ) == Some(c.default_run_seconds as nat)
                    &&& spec_number_var(
                        vars.conn_interval_ms,
                        DEFAULT_CONN_INTERVAL_MS as nat,
                        u16::MAX as nat,
                    ) == Some(c.conn_interval_ms as nat)
                },
            },
    {
        let ghost v = vars;
        let ConfigVars {
            device_address,
            device_name,
            mqtt_broker,
            mqtt_port,
            mqtt_sub_topic,
            mqtt_pub_topic,
            influxdb_url,
            influxdb_token,
            influxdb_org,
            influxdb_bucket,
            device_password,
            default_run_seconds,
            conn_interval_ms,
        } = vars;
        let device_address = match device_address {
            Some(s) => s,
            None => return Err(ConfigError::Missing(ConfigVar::DeviceAddress)),
        };
        let device_name = match device_name {
            Some(s) => s,
            None => return Err(ConfigError::Missing(ConfigVar::DeviceName)),
        };
        let mqtt_broker = match mqtt_broker {
            Some(s) => s,
            None => return Err(ConfigError::Missing(ConfigVar::MqttBroker)),
        };
        let port = match number_var(&mqtt_port, DEFAULT_MQTT_PORT as u64, u16::MAX as u64) {
            Some(p) => p as u16,
            None => return Err(ConfigError::InvalidNumber(ConfigVar::MqttPort)),
        };
        let mqtt_sub_topic = match mqtt_sub_topic {
            Some(s) => s,
            None => return Err(ConfigError::Missing(ConfigVar::MqttSubTopic)),
        };
        let mqtt_pub_topic = match mqtt_pub_topic {
            Some(s) => s,
            None => return Err(ConfigError::Missing(ConfigVar::MqttPubTopic)),
        };
        let influxdb_url = match influxdb_url {
            Some(s) => s,
            None => return Err(ConfigError::Missing(ConfigVar::InfluxdbUrl)),
        };
        let influxdb_token = match influxdb_token {
            Some(s) => s,
            None => return Err(ConfigError::Missing(ConfigVar::InfluxdbToken)),
        };
        let influxdb_org = match influxdb_org {
            Some(s) => s,
            None => return Err(ConfigError::Missing(ConfigVar::InfluxdbOrg)),
        };
        let influxdb_bucket = match influxdb_bucket {
            Some(s) => s,
            None => return Err(ConfigError::Missing(ConfigVar::InfluxdbBucket)),
        };
        let run_seconds = match number_var(
            &default_run_seconds,
            DEFAULT_RUN_SECONDS as u64,
            u32::MAX as u64,
        ) {
            Some(r) => r as u32,
            None => return Err(ConfigError::InvalidNumber(ConfigVar::DefaultRunSeconds)),
        };
        let interval = match number_var(
            &conn_interval_ms,
            DEFAULT_CONN_INTERVAL_MS as u64,
            u16::MAX as u64,
        ) {
            Some(i) => i as u16,
            None => return Err(ConfigError::InvalidNumber(ConfigVar::ConnIntervalMs)),
        };
        Ok(
            Config {
                device_address,
                device_name,
                mqtt_broker,
                mqtt_port: port,
                mqtt_sub_topic,
                mqtt_pub_topic,
                influxdb_url,
                influxdb_token,
                influxdb_org,
                influxdb_bucket,
                device_password,
                default_run_seconds: run_seconds,
                conn_interval_ms: interval,
            },
        )
    }
}

/// The environment variable's name.
pub open spec fn spec_env_name(var: ConfigVar) -> Seq<char> {
    match var {
        ConfigVar::DeviceAddress => "DEVICE_ADDRESS"@,
        ConfigVar::DeviceName => "DEVICE_NAME"@,
        ConfigVar::MqttBroker => "MQTT_BROKER"@,
        ConfigVar::MqttPort => "MQTT_PORT"@,
        ConfigVar::MqttSubTopic => "MQTT_SUB_TOPIC"@,
        ConfigVar::MqttPubTopic => "MQTT_PUB_TOPIC"@,
        ConfigVar::InfluxdbUrl => "INFLUXDB_URL"@,
        ConfigVar::InfluxdbToken => "INFLUXDB_TOKEN"@,
        ConfigVar::InfluxdbOrg => "INFLUXDB_ORG"@,
        ConfigVar::InfluxdbBucket => "INFLUXDB_BUCKET"@,
        ConfigVar::DefaultRunSeconds => "DEFAULT_RUN_SECONDS"@,
        ConfigVar::ConnIntervalMs => "CONN_INTERVAL_MS"@,
    }
}

impl ConfigVar {
    /// The name of the environment variable that holds this setting.
    pub fn env_name(&self) -> (name: &'static str)
        ensures
            name@ == spec_env_name(*self),
    {
        match self {
            ConfigVar::DeviceAddress => "DEVICE_ADDRESS",
            ConfigVar::DeviceName => "DEVICE_NAME",
            ConfigVar::MqttBroker => "MQTT_BROKER",
            ConfigVar::MqttPort => "MQTT_PORT",
            ConfigVar::MqttSubTopic => "MQTT_SUB_TOPIC",
            ConfigVar::MqttPubTopic => "MQTT_PUB_TOPIC",
            ConfigVar::InfluxdbUrl => "INFLUXDB_URL",
            ConfigVar::InfluxdbToken => "INFLUXDB_TOKEN",
            ConfigVar::InfluxdbOrg => "INFLUXDB_ORG",
            ConfigVar::InfluxdbBucket => "INFLUXDB_BUCKET",
            ConfigVar::DefaultRunSeconds => "DEFAULT_RUN_SECONDS",
            ConfigVar::ConnIntervalMs => "CONN_INTERVAL_MS",
        }
    }
}

} // verus!
