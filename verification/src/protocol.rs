//! The second-generation AIS payloads carried over GATT, and the
//! characteristic naming scheme.

use vstd::prelude::*;
use vstd::string::*;
use vstd::utf8::*;

verus! {

/// The standard GATT battery-level characteristic (`2a19`).
pub const BATTERY_LEVEL_CHAR_UUID: &'static str = "00002a19-0000-1000-8000-00805f9b34fb";

/// Lowercase hexadecimal digit for a value below 16.
pub open spec fn hex_lower(d: int) -> char {
    if d < 10 {
        (d + 48) as char
    } else {
        (d + 87) as char
    }
}

/// `{:08x}` of a 16-bit id: four leading zeros, then its four nibbles.
pub open spec fn hex8_of_u16(id: u16) -> Seq<char> {
    seq![
        '0',
        '0',
        '0',
        '0',
        hex_lower((id / 4096) as int),
        hex_lower(((id / 256) % 16) as int),
        hex_lower(((id / 16) % 16) as int),
        hex_lower((id % 16) as int),
    ]
}

fn hex_digit_str(d: u16) -> (s: &'static str)
    requires
        d < 16,
    ensures
        s@ == seq![hex_lower(d as int)],
{
    match d {
        0 => {
            proof {
                reveal_strlit("0");
            }
            "0"
        },
        1 => {
            proof {
                reveal_strlit("1");
            }
            "1"
        },
        2 => {
            proof {
                reveal_strlit("2");
            }
            "2"
        },
        3 => {
            proof {
                reveal_strlit("3");
            }
            "3"
        },
        4 => {
            proof {
                reveal_strlit("4");
            }
            "4"
        },
        5 => {
            proof {
                reveal_strlit("5");
            }
            "5"
        },
        6 => {
            proof {
                reveal_strlit("6");
            }
            "6"
        },
        7 => {
            proof {
                reveal_strlit("7");
            }
            "7"
        },
        8 => {
            proof {
                reveal_strlit("8");
            }
            "8"
        },
        9 => {
            proof {
                reveal_strlit("9");
            }
            "9"
        },
        10 => {
            proof {
                reveal_strlit("a");
            }
            "a"
        },
        11 => {
            proof {
                reveal_strlit("b");
            }
            "b"
        },
        12 => {
            proof {
                reveal_strlit("c");
            }
            "c"
        },
        13 => {
            proof {
                reveal_strlit("d");
            }
            "d"
        },
        14 => {
            proof {
                reveal_strlit("e");
            }
            "e"
        },
        _ => {
            proof {
                reveal_strlit("f");
            }
            "f"
        },
    }
}

/// The fixed tail shared by every AIS characteristic UUID.
pub open spec fn uuid_base_suffix() -> Seq<char> {
    "-0000-1000-8000-00805f9b34fb"@
}

/// The characteristic UUID of an AIS protocol id:
/// `{protocol_id:08x}-0000-1000-8000-00805f9b34fb`.
pub open spec fn spec_protocol_uuid(protocol_id: u16) -> Seq<char> {
    hex8_of_u16(protocol_id) + uuid_base_suffix()
}

/// The value of a lowercase hexadecimal digit character, or -1 for any
/// other character.
pub open spec fn hex_char_value(c: char) -> int {
    if '0' <= c <= '9' {
        c as int - 48
    } else if 'a' <= c <= 'f' {
        c as int - 87
    } else {
        -1
    }
}

/// A protocol's characteristic UUID is 36 characters: `0000`, then the id
/// as four lowercase hex digits (most significant first), then the fixed
/// Bluetooth base tail.
pub proof fn lemma_protocol_uuid_spells_id(protocol_id: u16)
    ensures
        spec_protocol_uuid(protocol_id).len() == 36,
        spec_protocol_uuid(protocol_id)[0] == '0' && spec_protocol_uuid(protocol_id)[1] == '0'
            && spec_protocol_uuid(protocol_id)[2] == '0' && spec_protocol_uuid(protocol_id)[3]
            == '0',
        forall|i: int|
            4 <= i < 8 ==> 0 <= hex_char_value(#[trigger] spec_protocol_uuid(protocol_id)[i]) < 16,
        hex_char_value(spec_protocol_uuid(protocol_id)[4]) * 4096 + hex_char_value(
            spec_protocol_uuid(protocol_id)[5],
        ) * 256 + hex_char_value(spec_protocol_uuid(protocol_id)[6]) * 16 + hex_char_value(
            spec_protocol_uuid(protocol_id)[7],
        ) == protocol_id,
        spec_protocol_uuid(protocol_id).subrange(8, 36) == "-0000-1000-8000-00805f9b34fb"@,
{
    reveal_strlit("-0000-1000-8000-00805f9b34fb");
    let u = spec_protocol_uuid(protocol_id);
    let id = protocol_id as int;
    assert forall|d: int| 0 <= d < 16 implies hex_char_value(#[trigger] hex_lower(d)) == d by {
        if d < 10 {
            assert((d + 48) as char as int == d + 48);
        } else {
            assert((d + 87) as char as int == d + 87);
        }
    }
    assert(u[4] == hex_lower(id / 4096));
    assert(u[5] == hex_lower((id / 256) % 16));
    assert(u[6] == hex_lower((id / 16) % 16));
    assert(u[7] == hex_lower(id % 16));
    assert(id == (id / 4096) * 4096 + ((id / 256) % 16) * 256 + ((id / 16) % 16) * 16 + id % 16);
    assert(u.subrange(8, 36) =~= "-0000-1000-8000-00805f9b34fb"@);
}

/// Formats the GATT characteristic UUID that carries the given AIS protocol id.
pub fn protocol_id_to_uuid(protocol_id: u16) -> (uuid: String)
    ensures
        uuid@ == spec_protocol_uuid(protocol_id),
{
    let mut s = String::from_str("0000");
    proof {
        reveal_strlit("0000");
    }
    s.append(hex_digit_str(protocol_id / 4096));
    s.append(hex_digit_str((protocol_id / 256) % 16));
    s.append(hex_digit_str((protocol_id / 16) % 16));
    s.append(hex_digit_str(protocol_id % 16));
    s.append("-0000-1000-8000-00805f9b34fb");
    assert(s@ =~= spec_protocol_uuid(protocol_id));
    s
}

/// Why a payload could not be decoded.
#[derive(Debug, Clone, Copy, PartialEq, Eq, Structural)]
pub enum ProtocolError {
    /// The payload is shorter than the protocol's fixed size.
    DataTooShort,
}

/// Zone schedule and manual-run payload (`ff86` for zone 1, `ff8b` for zone 2).
#[derive(Debug, Clone, Copy, PartialEq, Eq, Structural, Default)]
pub struct Second86Protocol {
    pub w_index: u8,
    pub ztm_type: u8,
    pub ztm_days: u8,
    pub ztm_interval1: u8,
    pub ztm_interval2: u8,
    pub ztm_odd_or_even: u8,
    pub zcm_type: u8,
    pub zcm_days: u8,
    pub zcm_interval1: u8,
    pub zcm_interval2: u8,
    pub zcm_odd_or_even: u8,
    pub zm_hour: u8,
    pub zm_minute: u8,
    pub zm_second: u8,
    pub zem_hour: u8,
    pub zem_minute: u8,
    pub zem_second: u8,
}

impl Second86Protocol {
    /// Number of bytes in the encoded payload.
    pub open spec fn spec_encoded_len() -> nat {
        17
    }

    /// The payload read from the first 17 bytes of `b`.
    pub open spec fn spec_decode(b: Seq<u8>) -> Self
        recommends
            b.len() >= 17,
    {
        Second86Protocol {
            w_index: b[0],
            ztm_type: b[1],
            ztm_days: b[2],
            ztm_interval1: b[3],
            ztm_interval2: b[4],
            ztm_odd_or_even: b[5],
            zcm_type: b[6],
            zcm_days: b[7],
            zcm_interval1: b[8],
            zcm_interval2: b[9],
            zcm_odd_or_even: b[10],
            zm_hour: b[11],
            zm_minute: b[12],
            zm_second: b[13],
            zem_hour: b[14],
            zem_minute: b[15],
            zem_second: b[16],
        }
    }

    /// The payload's bytes, one byte per field in declaration order.
    pub open spec fn spec_encode(self) -> Seq<u8> {
        seq![
            self.w_index,
            self.ztm_type,
            self.ztm_days,
            self.ztm_interval1,
            self.ztm_interval2,
            self.ztm_odd_or_even,
            self.zcm_type,
            self.zcm_days,
            self.zcm_interval1,
            self.zcm_interval2,
            self.zcm_odd_or_even,
            self.zm_hour,
            self.zm_minute,
            self.zm_second,
            self.zem_hour,
            self.zem_minute,
            self.zem_second,
        ]
    }

    /// Decodes the payload; bytes past the first 17 are ignored.
    pub fn from_bytes(data: &[u8]) -> (res: Result<Self, ProtocolError>)
        ensures
            data@.len() < 17 <==> res is Err,
            res matches Err(e) ==> e == ProtocolError::DataTooShort,
            res matches Ok(p) ==> p == Self::spec_decode(data@),
    {
        if data.len() < 17 {
            return Err(ProtocolError::DataTooShort);
        }
        Ok(Second86Protocol {
            w_index: data[0],
            ztm_type: data[1],
            ztm_days: data[2],
            ztm_interval1: data[3],
            ztm_interval2: data[4],
            ztm_odd_or_even: data[5],
            zcm_type: data[6],
            zcm_days: data[7],
            zcm_interval1: data[8],
            zcm_interval2: data[9],
            zcm_odd_or_even: data[10],
            zm_hour: data[11],
            zm_minute: data[12],
            zm_second: data[13],
            zem_hour: data[14],
            zem_minute: data[15],
            zem_second: data[16],
        })
    }

    /// Encodes the payload written to the device.
    pub fn to_bytes(&self) -> (bytes: Vec<u8>)
        ensures
            bytes@ == self.spec_encode(),
    {
        let bytes = vec![
            self.w_index,
            self.ztm_type,
            self.ztm_days,
            self.ztm_interval1,
            self.ztm_interval2,
            self.ztm_odd_or_even,
            self.zcm_type,
            self.zcm_days,
            self.zcm_interval1,
            self.zcm_interval2,
            self.zcm_odd_or_even,
            self.zm_hour,
            self.zm_minute,
            self.zm_second,
            self.zem_hour,
            self.zem_minute,
            self.zem_second,
        ];
        assert(bytes@ =~= self.spec_encode());
        bytes
    }
}

/// Decoding an encoded payload gives the payload back.
pub proof fn lemma_second86protocol_encode_decode(p: Second86Protocol)
    ensures
        p.spec_encode().len() == Second86Protocol::spec_encoded_len(),
        Second86Protocol::spec_decode(p.spec_encode()) == p,
{
}

/// The `ff86` / `ff8b` wire layout: 17 bytes, the schedule fields at 0 to
/// 10, the manual run's hour, minute and second at 11, 12 and 13, and the
/// end time's hour, minute and second at 14, 15 and 16; decoding reads each
/// field from the same byte.
pub proof fn lemma_second86protocol_wire_layout(p: Second86Protocol, b: Seq<u8>)
    ensures
        p.spec_encode().len() == 17,
        p.spec_encode()[0] == p.w_index,
        p.spec_encode()[1] == p.ztm_type,
        p.spec_encode()[2] == p.ztm_days,
        p.spec_encode()[3] == p.ztm_interval1,
        p.spec_encode()[4] == p.ztm_interval2,
        p.spec_encode()[5] == p.ztm_odd_or_even,
        p.spec_encode()[6] == p.zcm_type,
        p.spec_encode()[7] == p.zcm_days,
        p.spec_encode()[8] == p.zcm_interval1,
        p.spec_encode()[9] == p.zcm_interval2,
        p.spec_encode()[10] == p.zcm_odd_or_even,
        p.spec_encode()[11] == p.zm_hour,
        p.spec_encode()[12] == p.zm_minute,
        p.spec_encode()[13] == p.zm_second,
        p.spec_encode()[14] == p.zem_hour,
        p.spec_encode()[15] == p.zem_minute,
        p.spec_encode()[16] == p.zem_second,
        b.len() >= 17 ==> ({
            let d = Second86Protocol::spec_decode(b);
            &&& d.w_index == b[0] && d.ztm_type == b[1] && d.ztm_days == b[2]
            &&& d.ztm_interval1 == b[3] && d.ztm_interval2 == b[4] && d.ztm_odd_or_even == b[5]
            &&& d.zcm_type == b[6] && d.zcm_days == b[7] && d.zcm_interval1 == b[8]
            &&& d.zcm_interval2 == b[9] && d.zcm_odd_or_even == b[10]
            &&& d.zm_hour == b[11] && d.zm_minute == b[12] && d.zm_second == b[13]
            &&& d.zem_hour == b[14] && d.zem_minute == b[15] && d.zem_second == b[16]
        }),
{
}

/// Encoding a decoded payload gives back exactly the bytes it was read from.
pub proof fn lemma_second86protocol_decode_encode(b: Seq<u8>)
    requires
        b.len() >= Second86Protocol::spec_encoded_len(),
    ensures
        Second86Protocol::spec_decode(b).spec_encode() == b.take(17),
{
    assert(Second86Protocol::spec_decode(b).spec_encode() =~= b.take(17));
}

/// Overall status and zone configuration payload (`ff83`).
#[derive(Debug, Clone, Copy, PartialEq, Eq, Structural, Default)]
pub struct Second83Protocol {
    pub enabled: u8,
    pub suspend_watering: u8,
    pub zone1_enabled: u8,
    pub zone1_mode: u8,
    pub zone1_enable_manual: u8,
    pub zone2_enabled: u8,
    pub zone2_mode: u8,
    pub zone2_enable_manual: u8,
    pub run_all_hh: u8,
    pub run_all_mm: u8,
    pub run_all_ss: u8,
    pub special_setting: u8,
}

impl Second83Protocol {
    /// Number of bytes in the encoded payload.
    pub open spec fn spec_encoded_len() -> nat {
        12
    }

    /// The payload read from the first 12 bytes of `b`.
    pub open spec fn spec_decode(b: Seq<u8>) -> Self
        recommends
            b.len() >= 12,
    {
        Second83Protocol {
            enabled: b[0],
            suspend_watering: b[1],
            zone1_enabled: b[2],
            zone1_mode: b[3],
            zone1_enable_manual: b[4],
            zone2_enabled: b[5],
            zone2_mode: b[6],
            zone2_enable_manual: b[7],
            run_all_hh: b[8],
            run_all_mm: b[9],
            run_all_ss: b[10],
            special_setting: b[11],
        }
    }

    /// The payload's bytes, one byte per field in declaration order.
    pub open spec fn spec_encode(self) -> Seq<u8> {
        seq![
            self.enabled,
            self.suspend_watering,
            self.zone1_enabled,
            self.zone1_mode,
            self.zone1_enable_manual,
            self.zone2_enabled,
            self.zone2_mode,
            self.zone2_enable_manual,
            self.run_all_hh,
            self.run_all_mm,
            self.run_all_ss,
            self.special_setting,
        ]
    }

    /// Decodes the payload; bytes past the first 12 are ignored.
    pub fn from_bytes(data: &[u8]) -> (res: Result<Self, ProtocolError>)
        ensures
            data@.len() < 12 <==> res is Err,
            res matches Err(e) ==> e == ProtocolError::DataTooShort,
            res matches Ok(p) ==> p == Self::spec_decode(data@),
    {
        if data.len() < 12 {
            return Err(ProtocolError::DataTooShort);
        }
        Ok(Second83Protocol {
            enabled: data[0],
            suspend_watering: data[1],
            zone1_enabled: data[2],
            zone1_mode: data[3],
            zone1_enable_manual: data[4],
            zone2_enabled: data[5],
            zone2_mode: data[6],
            zone2_enable_manual: data[7],
            run_all_hh: data[8],
            run_all_mm: data[9],
            run_all_ss: data[10],
            special_setting: data[11],
        })
    }

    /// Encodes the payload written to the device.
    pub fn to_bytes(&self) -> (bytes: Vec<u8>)
        ensures
            bytes@ == self.spec_encode(),
    {
        let bytes = vec![
            self.enabled,
            self.suspend_watering,
            self.zone1_enabled,
            self.zone1_mode,
            self.zone1_enable_manual,
            self.zone2_enabled,
            self.zone2_mode,
            self.zone2_enable_manual,
            self.run_all_hh,
            self.run_all_mm,
            self.run_all_ss,
            self.special_setting,
        ];
        assert(bytes@ =~= self.spec_encode());
        bytes
    }
}

/// Decoding an encoded payload gives the payload back.
pub proof fn lemma_second83protocol_encode_decode(p: Second83Protocol)
    ensures
        p.spec_encode().len() == Second83Protocol::spec_encoded_len(),
        Second83Protocol::spec_decode(p.spec_encode()) == p,
{
}

/// The `ff83` wire layout: 12 bytes, in order the enabled and suspend flags,
/// zone 1's enabled, mode and manual-enable bytes (2, 3, 4), zone 2's
/// (5, 6, 7), the run-all hours, minutes and seconds (8, 9, 10) and the
/// special setting (11); decoding reads each field from the same byte.
pub proof fn lemma_second83protocol_wire_layout(p: Second83Protocol, b: Seq<u8>)
    ensures
        p.spec_encode().len() == 12,
        p.spec_encode()[0] == p.enabled,
        p.spec_encode()[1] == p.suspend_watering,
        p.spec_encode()[2] == p.zone1_enabled,
        p.spec_encode()[3] == p.zone1_mode,
        p.spec_encode()[4] == p.zone1_enable_manual,
        p.spec_encode()[5] == p.zone2_enabled,
        p.spec_encode()[6] == p.zone2_mode,
        p.spec_encode()[7] == p.zone2_enable_manual,
        p.spec_encode()[8] == p.run_all_hh,
        p.spec_encode()[9] == p.run_all_mm,
        p.spec_encode()[10] == p.run_all_ss,
        p.spec_encode()[11] == p.special_setting,
        b.len() >= 12 ==> ({
            let d = Second83Protocol::spec_decode(b);
            &&& d.enabled == b[0] && d.suspend_watering == b[1]
            &&& d.zone1_enabled == b[2] && d.zone1_mode == b[3] && d.zone1_enable_manual == b[4]
            &&& d.zone2_enabled == b[5] && d.zone2_mode == b[6] && d.zone2_enable_manual == b[7]
            &&& d.run_all_hh == b[8] && d.run_all_mm == b[9] && d.run_all_ss == b[10]
            &&& d.special_setting == b[11]
        }),
{
}

/// Encoding a decoded payload gives back exactly the bytes it was read from.
pub proof fn lemma_second83protocol_decode_encode(b: Seq<u8>)
    requires
        b.len() >= Second83Protocol::spec_encoded_len(),
    ensures
        Second83Protocol::spec_decode(b).spec_encode() == b.take(12),
{
    assert(Second83Protocol::spec_decode(b).spec_encode() =~= b.take(12));
}

/// The zone-state byte values of `ff82` that mean the zone is watering:
/// 5 (command-started), 9 (ext-manual-started) and 17 (manual button).
/// 0 (standby), 1 (idle) and 2 (scheduled reminder), and any other value,
/// mean it is not.
pub open spec fn spec_zone_state_is_on(state: u8) -> bool {
    state == 5 || state == 9 || state == 17
}

/// Whether an `ff82` zone-state byte means the zone is watering.
pub fn zone_state_is_on(state: u8) -> (on: bool)
    ensures
        on == spec_zone_state_is_on(state),
{
    state == 5 || state == 9 || state == 17
}

/// Zone status payload (`ff82`), as the bridge reads it: the enabled and
/// suspend flags (bytes 0 and 1) and whether each zone is watering
/// (state bytes 10 and 11).
#[derive(Debug, Clone, Copy, PartialEq, Eq, Structural, Default)]
pub struct Second82Protocol {
    pub enabled: bool,
    pub suspend_watering: bool,
    pub zone1_state: bool,
    pub zone2_state: bool,
}

impl Second82Protocol {
    /// Number of bytes in the status payload.
    pub open spec fn spec_encoded_len() -> nat {
        14
    }

    /// The status read from the first 14 bytes of `b`.
    pub open spec fn spec_decode(b: Seq<u8>) -> Self
        recommends
            b.len() >= 14,
    {
        Second82Protocol {
            enabled: b[0] != 0,
            suspend_watering: b[1] != 0,
            zone1_state: spec_zone_state_is_on(b[10]),
            zone2_state: spec_zone_state_is_on(b[11]),
        }
    }

    /// Decodes a status payload; bytes past the first 14 are ignored.
    pub fn from_bytes(data: &[u8]) -> (res: Result<Self, ProtocolError>)
        ensures
            data@.len() < 14 <==> res is Err,
            res matches Err(e) ==> e == ProtocolError::DataTooShort,
            res matches Ok(p) ==> p == Self::spec_decode(data@),
    {
        if data.len() < 14 {
            return Err(ProtocolError::DataTooShort);
        }
        Ok(Second82Protocol {
            enabled: data[0] != 0,
            suspend_watering: data[1] != 0,
            zone1_state: zone_state_is_on(data[10]),
            zone2_state: zone_state_is_on(data[11]),
        })
    }
}

/// How an `ff82` status is read: enabled when byte 0 is nonzero, suspended
/// when byte 1 is nonzero, and zone 1 (byte 10) or zone 2 (byte 11) watering
/// exactly when its state byte is 5, 9 or 17.
pub proof fn lemma_second82protocol_wire_layout(b: Seq<u8>)
    requires
        b.len() >= 14,
    ensures
        Second82Protocol::spec_decode(b).enabled <==> b[0] != 0,
        Second82Protocol::spec_decode(b).suspend_watering <==> b[1] != 0,
        Second82Protocol::spec_decode(b).zone1_state <==> (b[10] == 5 || b[10] == 9 || b[10]
            == 17),
        Second82Protocol::spec_decode(b).zone2_state <==> (b[11] == 5 || b[11] == 9 || b[11]
            == 17),
{
}

/// The decoded status depends on bytes 0, 1, 10 and 11 alone: the
/// manual-enable flags (bytes 4 and 8) and the other bytes never change it.
pub proof fn lemma_second82_reads_only_flag_and_state_bytes(a: Seq<u8>, b: Seq<u8>)
    requires
        a.len() >= 14,
        b.len() >= 14,
        a[0] != 0 <==> b[0] != 0,
        a[1] != 0 <==> b[1] != 0,
        a[10] == b[10],
        a[11] == b[11],
    ensures
        Second82Protocol::spec_decode(a) == Second82Protocol::spec_decode(b),
{
}

/// Why a zone name could not be decoded.
#[derive(Debug, Clone, Copy, PartialEq, Eq, Structural)]
pub enum ZoneNameError {
    /// No bytes precede the first NUL (or the payload is empty).
    Empty,
    /// The name bytes are not valid UTF-8.
    InvalidUtf8,
}

/// Index of the first NUL byte of `s`, or its length when it holds none.
pub open spec fn nul_index(s: Seq<u8>) -> nat
    decreases s.len(),
{
    if s.len() == 0 {
        0
    } else if s[0] == 0 {
        0
    } else {
        1 + nul_index(s.subrange(1, s.len() as int))
    }
}

/// Longest zone name, in bytes.
pub const ZONE_NAME_MAX_BYTES: usize = 20;

/// The bytes of a zone name payload that form the name: those before the
/// first NUL, at most 20 of them.
pub open spec fn zone_name_bytes(data: Seq<u8>) -> Seq<u8> {
    let end = nul_index(data);
    data.take(if end < 20 { end as int } else { 20 })
}

proof fn lemma_nul_index_step(s: Seq<u8>, i: int)
    requires
        0 <= i < s.len(),
        s[i] != 0,
    ensures
        nul_index(s.subrange(i, s.len() as int)) == 1 + nul_index(
            s.subrange(i + 1, s.len() as int),
        ),
{
    let t = s.subrange(i, s.len() as int);
    assert(t.subrange(1, t.len() as int) =~= s.subrange(i + 1, s.len() as int));
}

proof fn lemma_nul_index_bound(s: Seq<u8>)
    ensures
        nul_index(s) <= s.len(),
    decreases s.len(),
{
    if s.len() > 0 && s[0] != 0 {
        lemma_nul_index_bound(s.subrange(1, s.len() as int));
    }
}

proof fn lemma_nul_index_facts(s: Seq<u8>)
    ensures
        nul_index(s) <= s.len(),
        forall|i: int| 0 <= i < nul_index(s) ==> #[trigger] s[i] != 0,
        nul_index(s) < s.len() ==> s[nul_index(s) as int] == 0,
    decreases s.len(),
{
    if s.len() > 0 && s[0] != 0 {
        let t = s.subrange(1, s.len() as int);
        lemma_nul_index_facts(t);
        assert forall|i: int| 0 <= i < nul_index(s) implies #[trigger] s[i] != 0 by {
            if i > 0 {
                assert(s[i] == t[i - 1]);
            }
        }
        if nul_index(s) < s.len() {
            assert(s[nul_index(s) as int] == t[nul_index(t) as int]);
        }
    }
}

/// The name bytes of a zone-name payload are its first bytes up to the
/// first NUL, cut at 20: they hold no NUL, are at most 20, and end at the
/// payload's end, at a NUL, or at the 20-byte limit.
pub proof fn lemma_zone_name_bytes(data: Seq<u8>)
    ensures
        ({
            let n = zone_name_bytes(data);
            &&& n.len() <= 20
            &&& n.len() <= data.len()
            &&& forall|i: int| 0 <= i < n.len() ==> #[trigger] n[i] == data[i] && n[i] != 0
            &&& (n.len() == 20 || n.len() == data.len() || data[n.len() as int] == 0)
        }),
{
    lemma_nul_index_facts(data);
}

fn find_nul(data: &[u8]) -> (end: usize)
    ensures
        end == nul_index(data@),
{
    let mut i: usize = 0;
    assert(data@.subrange(0, data@.len() as int) =~= data@);
    while i < data.len()
        invariant
            i <= data.len(),
            nul_index(data@) == i + nul_index(data@.subrange(i as int, data@.len() as int)),
        decreases data.len() - i,
    {
        if data[i] == 0 {
            return i;
        }
        proof {
            lemma_nul_index_step(data@, i as int);
        }
        i = i + 1;
    }
    i
}

/// `std::str::from_utf8`: succeeds exactly when the bytes are valid UTF-8,
/// and then holds the characters they encode (as std documents).
#[verifier::external_body]
fn str_from_utf8(bytes: &[u8]) -> (res: Option<&str>)
    ensures
        res is Some <==> valid_utf8(bytes@),
        res matches Some(s) ==> s@ == decode_utf8(bytes@),
{
    std::str::from_utf8(bytes).ok()
}

/// Decodes a zone name (`ff90` / `ff91`): the bytes before the first NUL,
/// at most 20, read as UTF-8.
pub fn decode_zone_name(data: &[u8]) -> (res: Result<String, ZoneNameError>)
    ensures
        zone_name_bytes(data@).len() == 0 <==> res == Err::<String, ZoneNameError>(
            ZoneNameError::Empty,
        ),
        res == Err::<String, ZoneNameError>(ZoneNameError::InvalidUtf8) <==> (zone_name_bytes(
            data@,
        ).len() > 0 && !valid_utf8(zone_name_bytes(data@))),
        res is Ok <==> (zone_name_bytes(data@).len() > 0 && valid_utf8(zone_name_bytes(data@))),
        res matches Ok(name) ==> name@ == decode_utf8(zone_name_bytes(data@)),
{
    let end = find_nul(data);
    proof {
        lemma_nul_index_bound(data@);
    }
    let n = if end < ZONE_NAME_MAX_BYTES {
        end
    } else {
        ZONE_NAME_MAX_BYTES
    };
    let name = vstd::slice::slice_subrange(data, 0, n);
    if name.len() == 0 {
        return Err(ZoneNameError::Empty);
    }
    match str_from_utf8(name) {
        Some(s) => Ok(s.to_owned()),
        None => Err(ZoneNameError::InvalidUtf8),
    }
}

} // verus!
