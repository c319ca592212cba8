//! The bridge's command and status rules: what a zone command writes to the
//! device, how an MQTT request is dispatched, what a status response reports,
//! which zone transitions are recorded, and the reconnect backoff.

use crate::protocol::{Second82Protocol, Second83Protocol, Second86Protocol};
use vstd::prelude::*;
use vstd::string::*;
use vstd::utf8::*;

verus! {

/// Compares two strings character by character.
pub(crate) fn str_eq(a: &str, b: &str) -> (eq: bool)
    ensures
        eq == (a@ == b@),
{
    let x = a.as_bytes();
    let y = b.as_bytes();
    proof {
        encode_utf8_decode_utf8(a@);
        encode_utf8_decode_utf8(b@);
    }
    if x.len() != y.len() {
        return false;
    }
    let mut i: usize = 0;
    while i < x.len()
        invariant
            i <= x.len(),
            x.len() == y.len(),
            x@ == a.spec_bytes(),
            y@ == b.spec_bytes(),
            forall|j: int| 0 <= j < i ==> x@[j] == y@[j],
        decreases x.len() - i,
    {
        if x[i] != y[i] {
            assert(x@[i as int] != y@[i as int]);
            assert(a.spec_bytes() != b.spec_bytes());
            return false;
        }
        i = i + 1;
    }
    assert(x@ =~= y@);
    true
}

/// `w_index` of a manual-run payload.
pub const MANUAL_RUN_W_INDEX: u8 = 4;

/// Seconds in an hour of run time.
pub const SECS_PER_HOUR: u32 = 3600;

/// A run time can be written only if its whole hours fit the one-byte hour field.
pub open spec fn run_time_fits(run_time_secs: u32) -> bool {
    run_time_secs / 3600 <= 255
}

/// The manual-run payload for a run time: `w_index` 4, the run time split
/// into hours, minutes and seconds, every other field zero.
pub open spec fn spec_manual_run(run_time_secs: u32) -> Second86Protocol {
    Second86Protocol {
        w_index: 4,
        ztm_type: 0,
        ztm_days: 0,
        ztm_interval1: 0,
        ztm_interval2: 0,
        ztm_odd_or_even: 0,
        zcm_type: 0,
        zcm_days: 0,
        zcm_interval1: 0,
        zcm_interval2: 0,
        zcm_odd_or_even: 0,
        zm_hour: (run_time_secs / 3600) as u8,
        zm_minute: ((run_time_secs % 3600) / 60) as u8,
        zm_second: (run_time_secs % 60) as u8,
        zem_hour: 0,
        zem_minute: 0,
        zem_second: 0,
    }
}

/// The run time, in seconds, that a manual-run payload encodes.
pub open spec fn spec_manual_run_secs(p: Second86Protocol) -> int {
    p.zm_hour * 3600 + p.zm_minute * 60 + p.zm_second
}

/// Builds the manual-run payload for a run time, or `None` when its hours
/// do not fit the device's one-byte field.
pub fn manual_run_payload(run_time_secs: u32) -> (payload: Option<Second86Protocol>)
    ensures
        payload is None <==> !run_time_fits(run_time_secs),
        payload matches Some(p) ==> p == spec_manual_run(run_time_secs),
{
    if run_time_secs / SECS_PER_HOUR > 255 {
        return None;
    }
    let hours = (run_time_secs / SECS_PER_HOUR) as u8;
    let minutes = ((run_time_secs % SECS_PER_HOUR) / 60) as u8;
    let seconds = (run_time_secs % 60) as u8;
    Some(
        Second86Protocol {
            w_index: MANUAL_RUN_W_INDEX,
            ztm_type: 0,
            ztm_days: 0,
            ztm_interval1: 0,
            ztm_interval2: 0,
            ztm_odd_or_even: 0,
            zcm_type: 0,
            zcm_days: 0,
            zcm_interval1: 0,
            zcm_interval2: 0,
            zcm_odd_or_even: 0,
            zm_hour: hours,
            zm_minute: minutes,
            zm_second: seconds,
            zem_hour: 0,
            zem_minute: 0,
            zem_second: 0,
        },
    )
}

/// A run time that fits is encoded without loss: the payload's hours,
/// minutes and seconds add back up to it, and minutes and seconds stay
/// below 60.
pub proof fn lemma_manual_run_is_exact(run_time_secs: u32)
    requires
        run_time_fits(run_time_secs),
    ensures
        spec_manual_run_secs(spec_manual_run(run_time_secs)) == run_time_secs,
        spec_manual_run(run_time_secs).zm_minute < 60,
        spec_manual_run(run_time_secs).zm_second < 60,
{
    let s = run_time_secs as int;
    assert(s == (s / 3600) * 3600 + ((s % 3600) / 60) * 60 + s % 60) by (nonlinear_arith);
}

/// The characteristic that carries a zone's manual-run payload.
#[derive(Debug, Clone, Copy, PartialEq, Eq, Structural)]
pub enum ZoneRunWrite {
    /// Written to `ff86`.
    Zone1(Second86Protocol),
    /// Written to `ff8b`.
    Zone2(Second86Protocol),
}

/// What a zone command writes to the device once `ff83` and `ff82` have been read.
#[derive(Debug, Clone, Copy, PartialEq, Eq, Structural)]
pub enum CommandPlan {
    /// The run time does not fit the device's fields: nothing is written and
    /// the command reports failure.
    RunTimeTooLong,
    /// Write the zone's run payload (if any), then the updated `ff83`; the
    /// command reports success.
    Apply { zone_write: Option<ZoneRunWrite>, prot83: Second83Protocol },
    /// Nothing is written; the command reports success.
    StatusOnly,
}

/// Why a zone command was refused.
#[derive(Debug, Clone, Copy, PartialEq, Eq, Structural)]
pub enum CommandError {
    /// The command is none of `start`, `stop`, `status`.
    UnknownCommand,
}

/// `ff83` with the special setting cleared.
pub open spec fn spec_clear_special(p: Second83Protocol) -> Second83Protocol {
    Second83Protocol { special_setting: 0, ..p }
}

/// `ff83` with one zone's manual-enable flag set to `flag` (zones other
/// than 1 and 2 leave it unchanged).
pub open spec fn spec_set_manual(p: Second83Protocol, zone: u8, flag: u8) -> Second83Protocol {
    if zone == 1 {
        Second83Protocol { zone1_enable_manual: flag, ..p }
    } else if zone == 2 {
        Second83Protocol { zone2_enable_manual: flag, ..p }
    } else {
        p
    }
}

/// The writes of a zone command, given the `ff83` payload read first.
pub open spec fn spec_plan_command(
    cmd: Seq<char>,
    zone: u8,
    run_time_secs: u32,
    prot83: Second83Protocol,
) -> Result<CommandPlan, CommandError> {
    if cmd == "start"@ {
        if !run_time_fits(run_time_secs) {
            Ok(CommandPlan::RunTimeTooLong)
        } else {
            let run = spec_manual_run(run_time_secs);
            let zone_write = if zone == 1 {
                Some(ZoneRunWrite::Zone1(run))
            } else if zone == 2 {
                Some(ZoneRunWrite::Zone2(run))
            } else {
                None
            };
            Ok(
                CommandPlan::Apply {
                    zone_write,
                    prot83: spec_set_manual(spec_clear_special(prot83), zone, 1),
                },
            )
        }
    } else if cmd == "stop"@ {
        Ok(CommandPlan::Apply { zone_write: None, prot83: spec_set_manual(prot83, zone, 0) })
    } else if cmd == "status"@ {
        Ok(CommandPlan::StatusOnly)
    } else {
        Err(CommandError::UnknownCommand)
    }
}

/// Decides what a `start` / `stop` / `status` command for a zone writes.
pub fn plan_command(cmd: &str, zone: u8, run_time_secs: u32, prot83: Second83Protocol) -> (res:
    Result<CommandPlan, CommandError>)
    ensures
        res == spec_plan_command(cmd@, zone, run_time_secs, prot83),
{
    if str_eq(cmd, "start") {
        let run = match manual_run_payload(run_time_secs) {
            Some(p) => p,
            None => return Ok(CommandPlan::RunTimeTooLong),
        };
        let mut p = prot83;
        p.special_setting = 0;
        let zone_write = if zone == 1 {
            p.zone1_enable_manual = 1;
            Some(ZoneRunWrite::Zone1(run))
        } else if zone == 2 {
            p.zone2_enable_manual = 1;
            Some(ZoneRunWrite::Zone2(run))
        } else {
            None
        };
        Ok(CommandPlan::Apply { zone_write, prot83: p })
    } else if str_eq(cmd, "stop") {
        let mut p = prot83;
        if zone == 1 {
            p.zone1_enable_manual = 0;
        } else if zone == 2 {
            p.zone2_enable_manual = 0;
        }
        Ok(CommandPlan::Apply { zone_write: None, prot83: p })
    } else if str_eq(cmd, "status") {
        Ok(CommandPlan::StatusOnly)
    } else {
        Err(CommandError::UnknownCommand)
    }
}

/// A command rewrites `ff83` in place: apart from the target zone's
/// manual-enable flag (and, for a start, the special setting), every field
/// read from the device is written back unchanged; a stop never writes a
/// run payload.
pub proof fn lemma_command_preserves_other_settings(
    cmd: Seq<char>,
    zone: u8,
    run_time_secs: u32,
    p: Second83Protocol,
)
    requires
        spec_plan_command(cmd, zone, run_time_secs, p) matches Ok(CommandPlan::Apply { .. }),
    ensures
        ({
            let w = spec_plan_command(cmd, zone, run_time_secs, p)->Ok_0->prot83;
            &&& w.enabled == p.enabled
            &&& w.suspend_watering == p.suspend_watering
            &&& w.zone1_enabled == p.zone1_enabled
            &&& w.zone1_mode == p.zone1_mode
            &&& w.zone2_enabled == p.zone2_enabled
            &&& w.zone2_mode == p.zone2_mode
            &&& w.run_all_hh == p.run_all_hh
            &&& w.run_all_mm == p.run_all_mm
            &&& w.run_all_ss == p.run_all_ss
            &&& zone != 1 ==> w.zone1_enable_manual == p.zone1_enable_manual
            &&& zone != 2 ==> w.zone2_enable_manual == p.zone2_enable_manual
            &&& cmd != "start"@ ==> w.special_setting == p.special_setting
        }),
        cmd != "start"@ ==> spec_plan_command(cmd, zone, run_time_secs, p)->Ok_0->zone_write
            is None,
{
}

/// Whether `r` is a manual run of exactly `secs` seconds: index 4, the run
/// time as hours, minutes (below 60) and seconds (below 60), every schedule
/// field zero.
pub open spec fn is_manual_run_of(r: Second86Protocol, secs: u32) -> bool {
    &&& r.w_index == 4
    &&& r.zm_hour * 3600 + r.zm_minute * 60 + r.zm_second == secs
    &&& r.zm_minute < 60
    &&& r.zm_second < 60
    &&& r.ztm_type == 0 && r.ztm_days == 0 && r.ztm_interval1 == 0 && r.ztm_interval2 == 0
    &&& r.ztm_odd_or_even == 0
    &&& r.zcm_type == 0 && r.zcm_days == 0 && r.zcm_interval1 == 0 && r.zcm_interval2 == 0
    &&& r.zcm_odd_or_even == 0
    &&& r.zem_hour == 0 && r.zem_minute == 0 && r.zem_second == 0
}

/// What each zone command writes: a stop clears the zone's manual-enable
/// flag and writes no run payload; a start whose run time fits sets the
/// flag, clears the special setting and writes to the zone's own
/// characteristic (`ff86` for zone 1, `ff8b` for zone 2) a manual run of
/// exactly that many seconds; a start whose hours do not fit writes
/// nothing; a status writes nothing.
pub proof fn lemma_zone_command_writes(zone: u8, run_time_secs: u32, p: Second83Protocol)
    ensures
        match spec_plan_command("stop"@, zone, run_time_secs, p) {
            Ok(CommandPlan::Apply { zone_write: None, prot83: w }) => (zone == 1
                ==> w.zone1_enable_manual == 0) && (zone == 2 ==> w.zone2_enable_manual == 0),
            _ => false,
        },
        run_time_secs / 3600 <= 255 && zone == 1 ==> match spec_plan_command(
            "start"@,
            zone,
            run_time_secs,
            p,
        ) {
            Ok(CommandPlan::Apply { zone_write: Some(ZoneRunWrite::Zone1(r)), prot83: w }) => w.zone1_enable_manual
                == 1 && w.special_setting == 0 && is_manual_run_of(r, run_time_secs),
            _ => false,
        },
        run_time_secs / 3600 <= 255 && zone == 2 ==> match spec_plan_command(
            "start"@,
            zone,
            run_time_secs,
            p,
        ) {
            Ok(CommandPlan::Apply { zone_write: Some(ZoneRunWrite::Zone2(r)), prot83: w }) => w.zone2_enable_manual
                == 1 && w.special_setting == 0 && is_manual_run_of(r, run_time_secs),
            _ => false,
        },
        run_time_secs / 3600 > 255 ==> spec_plan_command("start"@, zone, run_time_secs, p)
            == Ok::<CommandPlan, CommandError>(CommandPlan::RunTimeTooLong),
        spec_plan_command("status"@, zone, run_time_secs, p) == Ok::<CommandPlan, CommandError>(
            CommandPlan::StatusOnly,
        ),
{
    reveal_strlit("start");
    reveal_strlit("stop");
    reveal_strlit("status");
    assert("stop"@ != "start"@) by {
        assert("stop"@[2] != "start"@[2]);
    }
    assert("status"@ != "start"@) by {
        assert("status"@.len() != "start"@.len());
    }
    assert("status"@ != "stop"@) by {
        assert("status"@.len() != "stop"@.len());
    }
    if run_time_fits(run_time_secs) {
        lemma_manual_run_is_exact(run_time_secs);
    }
}

/// A command other than `start`, `stop` and `status` is refused.
pub proof fn lemma_unknown_command_refused(
    cmd: Seq<char>,
    zone: u8,
    run_time_secs: u32,
    p: Second83Protocol,
)
    requires
        cmd != "start"@,
        cmd != "stop"@,
        cmd != "status"@,
    ensures
        spec_plan_command(cmd, zone, run_time_secs, p) == Err::<CommandPlan, CommandError>(
            CommandError::UnknownCommand,
        ),
{
}

/// Zone id of an MQTT zone name: `grass` is zone 2, any other name zone 1.
pub open spec fn spec_zone_id_for_name(zone: Seq<char>) -> u8 {
    if zone == "grass"@ {
        2
    } else {
        1
    }
}

/// Maps an MQTT zone name to the device's zone id.
pub fn zone_id_for_name(zone: &str) -> (id: u8)
    ensures
        id == spec_zone_id_for_name(zone@),
{
    if str_eq(zone, "grass") {
        2
    } else {
        1
    }
}

/// The MQTT zone name under which a zone's status is pushed: zone 1 is
/// `garden`, every other zone `grass`.
pub open spec fn spec_mqtt_zone_name(zone: u8) -> Seq<char> {
    if zone == 1 {
        "garden"@
    } else {
        "grass"@
    }
}

/// The canonical MQTT zone name of a zone.
pub fn mqtt_zone_name(zone: u8) -> (name: &'static str)
    ensures
        name@ == spec_mqtt_zone_name(zone),
{
    if zone == 1 {
        "garden"
    } else {
        "grass"
    }
}

/// The zone names that status pushes carry map back to the zone they name.
pub proof fn lemma_zone_names_round_trip(zone: u8)
    requires
        zone == 1 || zone == 2,
    ensures
        spec_zone_id_for_name(spec_mqtt_zone_name(zone)) == zone,
{
    reveal_strlit("garden");
    reveal_strlit("grass");
    assert("garden"@ != "grass"@) by {
        assert("garden"@[1] != "grass"@[1]);
    }
}

/// What an incoming MQTT request asks the bridge to do.
#[derive(Debug, Clone, Copy, PartialEq, Eq, Structural)]
pub enum MqttPlan {
    /// Start the zone for the given run time; respond with `success`.
    Start { zone: u8, run_time_secs: u32 },
    /// Stop the zone at once; respond with `success`.
    Stop { zone: u8 },
    /// An `on_off` request without an `on_off` value: respond without `success`.
    AcknowledgeOnly,
    /// Report the zone's status.
    Status { zone: u8 },
    /// An unknown command: nothing is done and nothing is published.
    Ignore,
}

/// The action for an MQTT request. A start without `duration_seconds` runs
/// for the configured default; a stop ignores any duration.
pub open spec fn spec_plan_mqtt(
    cmd: Seq<char>,
    zone: Seq<char>,
    on_off: Option<bool>,
    duration_seconds: Option<u32>,
    default_run_seconds: u32,
) -> MqttPlan {
    let id = spec_zone_id_for_name(zone);
    if cmd == "on_off"@ {
        match on_off {
            Some(true) => MqttPlan::Start {
                zone: id,
                run_time_secs: match duration_seconds {
                    Some(d) => d,
                    None => default_run_seconds,
                },
            },
            Some(false) => MqttPlan::Stop { zone: id },
            None => MqttPlan::AcknowledgeOnly,
        }
    } else if cmd == "status"@ {
        MqttPlan::Status { zone: id }
    } else {
        MqttPlan::Ignore
    }
}

/// Decides what an MQTT request asks for.
pub fn plan_mqtt_command(
    cmd: &str,
    zone: &str,
    on_off: Option<bool>,
    duration_seconds: Option<u32>,
    default_run_seconds: u32,
) -> (plan: MqttPlan)
    ensures
        plan == spec_plan_mqtt(cmd@, zone@, on_off, duration_seconds, default_run_seconds),
{
    let id = zone_id_for_name(zone);
    if str_eq(cmd, "on_off") {
        match on_off {
            Some(true) => {
                let secs = match duration_seconds {
                    Some(d) => d,
                    None => default_run_seconds,
                };
                MqttPlan::Start { zone: id, run_time_secs: secs }
            },
            Some(false) => MqttPlan::Stop { zone: id },
            None => MqttPlan::AcknowledgeOnly,
        }
    } else if str_eq(cmd, "status") {
        MqttPlan::Status { zone: id }
    } else {
        MqttPlan::Ignore
    }
}

/// Every MQTT request acts on the zone its name names: `grass` is zone 2,
/// any other name zone 1. An `on_off` with `true` starts that zone for the
/// given duration (or the default), with `false` stops it, without a value
/// only acknowledges; a `status` reports that zone; anything else is ignored.
pub proof fn lemma_mqtt_plan_targets_named_zone(
    cmd: Seq<char>,
    zone: Seq<char>,
    on_off: Option<bool>,
    duration_seconds: Option<u32>,
    default_run_seconds: u32,
)
    ensures
        ({
            let z: u8 = if zone == "grass"@ {
                2
            } else {
                1
            };
            let plan = spec_plan_mqtt(cmd, zone, on_off, duration_seconds, default_run_seconds);
            &&& (cmd == "on_off"@ && on_off == Some(false)) ==> plan == (MqttPlan::Stop { zone: z })
            &&& (cmd == "on_off"@ && on_off == Some(true)) ==> plan == (MqttPlan::Start {
                zone: z,
                run_time_secs: match duration_seconds {
                    Some(d) => d,
                    None => default_run_seconds,
                },
            })
            &&& (cmd == "on_off"@ && on_off is None) ==> plan == MqttPlan::AcknowledgeOnly
            &&& cmd == "status"@ ==> plan == (MqttPlan::Status { zone: z })
            &&& (cmd != "on_off"@ && cmd != "status"@) ==> plan == MqttPlan::Ignore
        }),
{
    reveal_strlit("on_off");
    reveal_strlit("status");
    assert("on_off"@ != "status"@) by {
        assert("on_off"@[0] != "status"@[0]);
    }
}

/// A stop ignores any duration and a start without one runs for the
/// configured default.
pub proof fn lemma_duration_rules(
    cmd: Seq<char>,
    zone: Seq<char>,
    d1: Option<u32>,
    d2: Option<u32>,
    default_run_seconds: u32,
)
    requires
        cmd == "on_off"@,
    ensures
        spec_plan_mqtt(cmd, zone, Some(false), d1, default_run_seconds) == spec_plan_mqtt(
            cmd,
            zone,
            Some(false),
            d2,
            default_run_seconds,
        ),
        spec_plan_mqtt(cmd, zone, Some(true), None, default_run_seconds) == (MqttPlan::Start {
            zone: spec_zone_id_for_name(zone),
            run_time_secs: default_run_seconds,
        }),
{
}

/// A start whose duration cannot be represented in the device's fields is
/// answered with failure and writes nothing.
pub proof fn lemma_overlong_duration_fails(
    zone: Seq<char>,
    duration_seconds: u32,
    default_run_seconds: u32,
    p: Second83Protocol,
)
    requires
        !run_time_fits(duration_seconds),
    ensures
        spec_plan_mqtt("on_off"@, zone, Some(true), Some(duration_seconds), default_run_seconds)
            == (MqttPlan::Start { zone: spec_zone_id_for_name(zone), run_time_secs: duration_seconds }),
        spec_plan_command("start"@, spec_zone_id_for_name(zone), duration_seconds, p) == Ok::<
            CommandPlan,
            CommandError,
        >(CommandPlan::RunTimeTooLong),
{
    reveal_strlit("on_off");
    reveal_strlit("status");
    assert("on_off"@ != "status"@) by {
        assert("on_off"@[0] != "status"@[0]);
    }
}

/// The zone state that a status request for `zone` reports: zone 1 reads
/// the first zone's state, any other zone the second's.
pub open spec fn spec_zone_state(status: Second82Protocol, zone: u8) -> bool {
    if zone == 1 {
        status.zone1_state
    } else {
        status.zone2_state
    }
}

/// Picks the zone's watering state out of a decoded status.
pub fn zone_state(status: &Second82Protocol, zone: u8) -> (on: bool)
    ensures
        on == spec_zone_state(*status, zone),
{
    if zone == 1 {
        status.zone1_state
    } else {
        status.zone2_state
    }
}

/// The answer to a status request for `zone` from the cached status, or
/// `None` when nothing is cached and the status must be read.
pub fn lookup_status(cached: &Option<Second82Protocol>, zone: u8) -> (answer: Option<bool>)
    ensures
        answer == match *cached {
            Some(p) => Some(spec_zone_state(p, zone)),
            None => None,
        },
{
    match cached {
        Some(p) => Some(zone_state(p, zone)),
        None => None,
    }
}

/// Stores a freshly read status in the cache unless a notification filled
/// it meanwhile; returns whether the cache changed.
pub fn fill_status_cache(cache: &mut Option<Second82Protocol>, parsed: Second82Protocol) -> (filled:
    bool)
    ensures
        filled == (*old(cache) is None),
        *final(cache) == if filled {
            Some(parsed)
        } else {
            *old(cache)
        },
{
    if cache.is_none() {
        *cache = Some(parsed);
        true
    } else {
        false
    }
}

/// Zone 1 answers with the first zone's state and zone 2 with the
/// second's; zone 1 is published as `garden` and zone 2 as `grass`, and
/// those names map back to zones 1 and 2.
pub proof fn lemma_zone_state_and_names(status: Second82Protocol)
    ensures
        spec_zone_state(status, 1) == status.zone1_state,
        spec_zone_state(status, 2) == status.zone2_state,
        spec_mqtt_zone_name(1) == "garden"@,
        spec_mqtt_zone_name(2) == "grass"@,
        spec_zone_id_for_name("garden"@) == 1,
        spec_zone_id_for_name("grass"@) == 2,
{
    reveal_strlit("garden");
    reveal_strlit("grass");
    assert("garden"@ != "grass"@) by {
        assert("garden"@[1] != "grass"@[1]);
    }
}

/// The zone names read from `ff90` / `ff91` after connecting; a name that
/// could not be read is absent.
#[derive(Debug, Clone, PartialEq, Eq, Default)]
pub struct ZoneNames {
    pub zone1: Option<String>,
    pub zone2: Option<String>,
}

/// The fields that a status response adds to the request it answers.
#[derive(Debug, Clone, PartialEq, Eq)]
pub struct StatusReport {
    /// 1 when the zone is watering, else 0.
    pub status: u8,
    /// The suspend flag of the cached status, false when none is cached.
    pub suspend_watering: bool,
    /// Zone 1's name, when one was read.
    pub zone1_name: Option<String>,
    /// Zone 2's name, when one was read.
    pub zone2_name: Option<String>,
}

fn clone_name(name: &Option<String>) -> (copy: Option<String>)
    ensures
        copy == *name,
{
    match name {
        Some(s) => Some(s.clone()),
        None => None,
    }
}

/// Builds the fields of a status response from the zone's state, the
/// cached `ff82` status and the zone names read at connect.
pub fn status_report(
    zone_on: bool,
    cached: &Option<Second82Protocol>,
    names: &Option<ZoneNames>,
) -> (report: StatusReport)
    ensures
        report.status == (if zone_on {
            1u8
        } else {
            0u8
        }),
        report.suspend_watering == match *cached {
            Some(p) => p.suspend_watering,
            None => false,
        },
        report.zone1_name == match *names {
            Some(n) => n.zone1,
            None => None,
        },
        report.zone2_name == match *names {
            Some(n) => n.zone2,
            None => None,
        },
{
    let suspend_watering = match cached {
        Some(p) => p.suspend_watering,
        None => false,
    };
    let (zone1_name, zone2_name) = match names {
        Some(n) => (clone_name(&n.zone1), clone_name(&n.zone2)),
        None => (None, None),
    };
    StatusReport {
        status: if zone_on {
            1
        } else {
            0
        },
        suspend_watering,
        zone1_name,
        zone2_name,
    }
}

/// A zone whose watering state changed between two `ff82` notifications.
#[derive(Debug, Clone, Copy, PartialEq, Eq, Structural)]
pub struct ValveEvent {
    /// 1 or 2.
    pub zone: u8,
    /// The new state: true when watering.
    pub state: bool,
}

/// The transitions between a previous status and a new one: first zone 1's,
/// then zone 2's, each only if that zone's state changed. With no previous
/// status there are none.
pub open spec fn spec_valve_transitions(
    prev: Option<Second82Protocol>,
    new: Second82Protocol,
) -> Seq<ValveEvent> {
    match prev {
        None => Seq::empty(),
        Some(p) => {
            let z1 = if p.zone1_state != new.zone1_state {
                seq![ValveEvent { zone: 1, state: new.zone1_state }]
            } else {
                Seq::empty()
            };
            let z2 = if p.zone2_state != new.zone2_state {
                seq![ValveEvent { zone: 2, state: new.zone2_state }]
            } else {
                Seq::empty()
            };
            z1 + z2
        },
    }
}

/// Lists the zone transitions to record and push for a new `ff82` status.
pub fn valve_transitions(prev: &Option<Second82Protocol>, new: &Second82Protocol) -> (events:
    Vec<ValveEvent>)
    ensures
        events@ == spec_valve_transitions(*prev, *new),
{
    let mut events: Vec<ValveEvent> = Vec::new();
    match prev {
        None => {},
        Some(p) => {
            if p.zone1_state != new.zone1_state {
                events.push(ValveEvent { zone: 1, state: new.zone1_state });
            }
            if p.zone2_state != new.zone2_state {
                events.push(ValveEvent { zone: 2, state: new.zone2_state });
            }
        },
    }
    assert(events@ =~= spec_valve_transitions(*prev, *new));
    events
}

/// With no earlier status there is nothing to compare, so no transition is
/// reported; otherwise a change of zone 1 is reported before one of zone 2.
pub proof fn lemma_valve_transitions_order(prev: Option<Second82Protocol>, new: Second82Protocol)
    ensures
        prev is None ==> spec_valve_transitions(prev, new).len() == 0,
        (prev matches Some(p) && p.zone1_state != new.zone1_state) ==> spec_valve_transitions(
            prev,
            new,
        )[0] == (ValveEvent { zone: 1, state: new.zone1_state }),
        (prev matches Some(p) && p.zone2_state != new.zone2_state) ==> spec_valve_transitions(
            prev,
            new,
        ).last() == (ValveEvent { zone: 2, state: new.zone2_state }),
{
}

/// Every observed transition is reported exactly once, and only real ones:
/// a zone appears among the events iff its state differs from the previous
/// status, and then with its new state.
pub proof fn lemma_valve_transitions_are_exact(prev: Second82Protocol, new: Second82Protocol)
    ensures
        (exists|i: int|
            0 <= i < spec_valve_transitions(Some(prev), new).len()
                && #[trigger] spec_valve_transitions(Some(prev), new)[i].zone == 1) <==> prev.zone1_state
            != new.zone1_state,
        (exists|i: int|
            0 <= i < spec_valve_transitions(Some(prev), new).len()
                && #[trigger] spec_valve_transitions(Some(prev), new)[i].zone == 2) <==> prev.zone2_state
            != new.zone2_state,
        forall|i: int|
            0 <= i < spec_valve_transitions(Some(prev), new).len() ==> {
                let e = #[trigger] spec_valve_transitions(Some(prev), new)[i];
                (e.zone == 1 && e.state == new.zone1_state) || (e.zone == 2 && e.state
                    == new.zone2_state)
            },
        spec_valve_transitions(Some(prev), new).len() <= 2,
{
    let evs = spec_valve_transitions(Some(prev), new);
    if prev.zone1_state != new.zone1_state {
        assert(evs[0].zone == 1);
    }
    if prev.zone2_state != new.zone2_state {
        assert(evs[evs.len() - 1].zone == 2);
    }
}

/// First reconnect delay, in seconds.
pub const INITIAL_BACKOFF_SECS: u64 = 1;

/// Longest reconnect delay, in seconds.
pub const MAX_BACKOFF_SECS: u64 = 60;

/// How long a command waits for the connection to become ready, in seconds.
pub const CONNECTION_READY_TIMEOUT_SECS: u64 = 65;

/// The delay after `current_secs`: doubled, capped at 60 seconds.
pub open spec fn spec_next_backoff(current_secs: u64) -> u64 {
    if 2 * current_secs > 60 {
        60
    } else {
        (2 * current_secs) as u64
    }
}

/// The reconnect delay that follows `current_secs` seconds.
pub fn next_backoff(current_secs: u64) -> (next_secs: u64)
    ensures
        next_secs == spec_next_backoff(current_secs),
{
    if current_secs > MAX_BACKOFF_SECS / 2 {
        MAX_BACKOFF_SECS
    } else {
        current_secs * 2
    }
}

/// The reconnect delay doubles after each failure until it would pass 60
/// seconds, and then stays at 60.
pub proof fn lemma_backoff_doubles_to_cap(current_secs: u64)
    ensures
        2 * current_secs <= 60 ==> spec_next_backoff(current_secs) == 2 * current_secs,
        2 * current_secs > 60 ==> spec_next_backoff(current_secs) == 60,
{
}

/// The password written to `ff81`: the password's bytes copied into a
/// 4-byte buffer, truncated or zero-padded on the right; all zeros when no
/// password is configured.
pub open spec fn spec_password_buffer(password: Option<Seq<u8>>) -> Seq<u8> {
    match password {
        None => seq![0u8, 0u8, 0u8, 0u8],
        Some(b) => Seq::new(4, |i: int| if i < b.len() { b[i] } else { 0u8 }),
    }
}

/// The password buffer is always four bytes: byte `i` is the password's
/// byte `i` when the password has one, and zero otherwise (all zero with no
/// password).
pub proof fn lemma_password_bytes(password: Option<Seq<u8>>)
    ensures
        spec_password_buffer(password).len() == 4,
        forall|i: int|
            0 <= i < 4 ==> #[trigger] spec_password_buffer(password)[i] == match password {
                Some(b) => if i < b.len() {
                    b[i]
                } else {
                    0u8
                },
                None => 0u8,
            },
{
}

/// Builds the 4-byte password buffer.
pub fn build_password(password: Option<&str>) -> (buf: [u8; 4])
    ensures
        buf@ == spec_password_buffer(
            match password {
                Some(p) => Some(p.spec_bytes()),
                None => None,
            },
        ),
{
    match password {
        None => {
            let buf = [0u8, 0u8, 0u8, 0u8];
            assert(buf@ =~= seq![0u8, 0u8, 0u8, 0u8]);
            buf
        },
        Some(p) => {
            let bytes = p.as_bytes();
            let n = bytes.len();
            let b0 = if 0 < n {
                bytes[0]
            } else {
                0
            };
            let b1 = if 1 < n {
                bytes[1]
            } else {
                0
            };
            let b2 = if 2 < n {
                bytes[2]
            } else {
                0
            };
            let b3 = if 3 < n {
                bytes[3]
            } else {
                0
            };
            let buf = [b0, b1, b2, b3];
            assert(buf@ =~= Seq::new(
                4,
                |i: int|
                    if i < p.spec_bytes().len() {
                        p.spec_bytes()[i]
                    } else {
                        0u8
                    },
            ));
            buf
        },
    }
}

} // verus!
