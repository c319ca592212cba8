//! HCI framing for the `LE Connection Update` request that holds the BLE
//! connection interval: unit conversions, the command packet, the event
//! frames read back, and the connection-list address match.

use vstd::prelude::*;
use vstd::seq_lib::*;
use vstd::string::*;

verus! {

broadcast use vstd::seq_lib::group_filter_ensures;

/// Packet-type byte of an HCI command on a raw socket.
pub const HCI_COMMAND_PKT: u8 = 0x01;

/// Packet-type byte of an HCI event on a raw socket.
pub const HCI_EVENT_FRAME: u8 = 0x04;

/// `Command Complete` event code.
pub const HCI_EVENT_COMMAND_COMPLETE: u8 = 0x0e;

/// `Command Status` event code.
pub const HCI_EVENT_COMMAND_STATUS: u8 = 0x0f;

/// `LE Meta` event code.
pub const HCI_EVENT_LE_META: u8 = 0x3e;

/// `LE Connection Update Complete` subevent code.
pub const LE_SUBEVENT_CONNECTION_UPDATE_COMPLETE: u8 = 0x03;

/// Opcode of `LE Connection Update` (OGF 0x08, OCF 0x0013).
pub const HCI_LE_CONN_UPDATE: u16 = 0x2013;

/// Supervision timeout requested with the interval, in milliseconds.
pub const SUPERVISION_TIMEOUT_MS: u16 = 20000;

/// Attempts made to apply the interval.
pub const MAX_INTERVAL_RETRIES: usize = 3;

/// Pause between attempts, in seconds.
pub const INTERVAL_RETRY_DELAY_SECS: u64 = 2;

/// How long one attempt waits for the result, in seconds.
pub const INTERVAL_RESULT_TIMEOUT_SECS: u64 = 15;

/// What a run of retries did.
pub struct RetryOutcome<T, E> {
    /// The first success, or the last failure when every call failed
    /// (`None` when no call was made).
    pub result: Option<Result<T, E>>,
    /// Calls made to the attempt.
    pub calls: usize,
    /// Pauses made between calls.
    pub pauses: usize,
    /// One flag per call, in order: whether that call succeeded.
    pub succeeded: Ghost<Seq<bool>>,
}

/// Whether a retry outcome follows the retry rule for `attempts`: every call
/// but the last failed, calling stops at the first success or after
/// `attempts` calls, the result is the last call's, and there is one pause
/// between each two calls and none after the last.
pub open spec fn follows_retry_rule<T, E>(o: RetryOutcome<T, E>, attempts: usize) -> bool {
    let flags = o.succeeded@;
    &&& flags.len() == o.calls
    &&& o.calls <= attempts
    &&& (o.calls == 0 <==> attempts == 0)
    &&& forall|k: int| 0 <= k < flags.len() - 1 ==> !#[trigger] flags[k]
    &&& (o.calls > 0 && o.calls < attempts) ==> flags.last()
    &&& (o.result is None <==> o.calls == 0)
    &&& o.calls > 0 ==> (o.result matches Some(r) && (r is Ok <==> flags.last()))
    &&& o.pauses == (if o.calls == 0 {
        0
    } else {
        o.calls - 1
    })
}

/// Calls `attempt` until it succeeds, at most `attempts` times, calling
/// `pause` between two calls (not after the last). Returns the first success,
/// or the last failure when every call failed (`None` when `attempts` is 0),
/// with the calls and pauses made.
pub fn with_retry<T, E, F, P>(attempts: usize, attempt: &mut F, pause: &mut P) -> (outcome:
    RetryOutcome<T, E>) where F: FnMut() -> Result<T, E>, P: FnMut()
    requires
        forall|f: F| call_requires(f, ()),
        forall|p: P| call_requires(p, ()),
    ensures
        follows_retry_rule(outcome, attempts),
{
    let mut last: Option<Result<T, E>> = None;
    let mut calls: usize = 0;
    let mut pauses: usize = 0;
    let ghost mut flags: Seq<bool> = Seq::empty();
    while calls < attempts
        invariant
            calls <= attempts,
            flags.len() == calls,
            forall|k: int| 0 <= k < flags.len() ==> !#[trigger] flags[k],
            last is None <==> calls == 0,
            last matches Some(r) ==> r is Err,
            pauses == (if calls == 0 {
                0
            } else {
                calls - 1
            }),
            forall|f: F| call_requires(f, ()),
            forall|p: P| call_requires(p, ()),
        decreases attempts - calls,
    {
        if calls > 0 {
            pause();
            pauses = pauses + 1;
        }
        let r = attempt();
        calls = calls + 1;
        match r {
            Ok(v) => {
                proof {
                    flags = flags.push(true);
                }
                return RetryOutcome {
                    result: Some(Ok(v)),
                    calls,
                    pauses,
                    succeeded: Ghost(flags),
                };
            },
            Err(e) => {
                proof {
                    flags = flags.push(false);
                }
                last = Some(Err(e));
            },
        }
    }
    RetryOutcome { result: last, calls, pauses, succeeded: Ghost(flags) }
}

/// A 16-bit value in little-endian byte order.
pub open spec fn le16(v: u16) -> Seq<u8> {
    seq![(v % 256) as u8, (v / 256) as u8]
}

/// The 16-bit value of two little-endian bytes.
pub open spec fn le16_value(lo: u8, hi: u8) -> u16 {
    (lo + hi * 256) as u16
}

fn le16_bytes(v: u16) -> (bytes: (u8, u8))
    ensures
        seq![bytes.0, bytes.1] == le16(v),
{
    ((v % 256) as u8, (v / 256) as u8)
}

fn le16_read(lo: u8, hi: u8) -> (v: u16)
    ensures
        v == le16_value(lo, hi),
{
    lo as u16 + (hi as u16) * 256
}

/// Converts milliseconds to connection-interval units of 1.25 ms (rounded down).
pub fn interval_units(ms: u16) -> (units: u16)
    ensures
        units == ms * 4 / 5,
{
    ((ms as u32) * 4 / 5) as u16
}

/// Converts milliseconds to supervision-timeout units of 10 ms (rounded down).
pub fn timeout_units(ms: u16) -> (units: u16)
    ensures
        units == ms / 10,
{
    ms / 10
}

/// Converts connection-interval units of 1.25 ms to milliseconds (rounded down).
pub fn interval_ms_from_units(units: u16) -> (ms: u32)
    ensures
        ms == units * 5 / 4,
{
    (units as u32) * 5 / 4
}

/// An interval that is a multiple of 5 ms survives the conversion to
/// 1.25 ms units and back.
pub proof fn lemma_interval_units_round_trip(ms: u16)
    requires
        ms % 5 == 0,
    ensures
        (ms * 4 / 5) * 5 / 4 == ms,
{
    let m = ms as int;
    assert((m * 4 / 5) * 5 / 4 == m) by (nonlinear_arith)
        requires
            m % 5 == 0,
            m >= 0,
    ;
}

/// Parameters of `LE Connection Update` for one interval: handle, minimum
/// and maximum interval (both the requested one), latency 0, supervision
/// timeout, and minimum and maximum CE length 1, each little-endian.
pub open spec fn spec_conn_update_params(handle: u16, interval_ms: u16) -> Seq<u8> {
    let units = (interval_ms * 4 / 5) as u16;
    le16(handle) + le16(units) + le16(units) + le16(0) + le16(
        (SUPERVISION_TIMEOUT_MS / 10) as u16,
    ) + le16(1) + le16(1)
}

/// Builds the parameters of `LE Connection Update` for the given handle and interval.
pub fn conn_update_params(handle: u16, interval_ms: u16) -> (params: Vec<u8>)
    ensures
        params@ == spec_conn_update_params(handle, interval_ms),
        params@.len() == 14,
{
    let units = interval_units(interval_ms);
    let timeout = timeout_units(SUPERVISION_TIMEOUT_MS);
    let h = le16_bytes(handle);
    let u = le16_bytes(units);
    let z = le16_bytes(0);
    let t = le16_bytes(timeout);
    let one = le16_bytes(1);
    let params = vec![h.0, h.1, u.0, u.1, u.0, u.1, z.0, z.1, t.0, t.1, one.0, one.1, one.0, one.1];
    assert(params@ =~= spec_conn_update_params(handle, interval_ms));
    params
}

/// An HCI command packet: the command packet type, the opcode
/// (little-endian), the parameter length (its low byte) and the parameters.
pub open spec fn spec_command_packet(opcode: u16, params: Seq<u8>) -> Seq<u8> {
    seq![HCI_COMMAND_PKT] + le16(opcode) + seq![(params.len() % 256) as u8] + params
}

/// Frames an HCI command for a raw HCI socket.
pub fn hci_command_packet(opcode: u16, params: &[u8]) -> (packet: Vec<u8>)
    ensures
        packet@ == spec_command_packet(opcode, params@),
{
    let op = le16_bytes(opcode);
    let mut packet = vec![HCI_COMMAND_PKT, op.0, op.1, (params.len() % 256) as u8];
    let ghost head = packet@;
    let mut i: usize = 0;
    while i < params.len()
        invariant
            i <= params.len(),
            packet@ == head + params@.take(i as int),
        decreases params.len() - i,
    {
        packet.push(params[i]);
        assert(params@.take(i + 1) =~= params@.take(i as int).push(params@[i as int]));
        i = i + 1;
    }
    assert(params@.take(params@.len() as int) =~= params@);
    assert(packet@ =~= spec_command_packet(opcode, params@));
    packet
}

/// A frame read from a raw HCI socket that is not an event.
#[derive(Debug, Clone, Copy, PartialEq, Eq, Structural)]
pub enum HciFrameError {
    /// The frame's type byte (0 when the frame is empty), for a frame that
    /// is too short or not an event.
    UnexpectedFrameType(u8),
}

/// The event inside a raw HCI frame, or the error for a frame that is not
/// an event of at least one byte.
pub open spec fn spec_event_payload(frame: Seq<u8>) -> Result<Seq<u8>, HciFrameError> {
    if frame.len() < 2 || frame[0] != HCI_EVENT_FRAME {
        Err(
            HciFrameError::UnexpectedFrameType(
                if frame.len() > 0 {
                    frame[0]
                } else {
                    0
                },
            ),
        )
    } else {
        Ok(frame.subrange(1, frame.len() as int))
    }
}

/// Strips the packet-type byte of an event frame.
pub fn event_payload(frame: &[u8]) -> (res: Result<Vec<u8>, HciFrameError>)
    ensures
        match res {
            Ok(evt) => spec_event_payload(frame@) == Ok::<Seq<u8>, HciFrameError>(evt@),
            Err(e) => spec_event_payload(frame@) == Err::<Seq<u8>, HciFrameError>(e),
        },
{
    if frame.len() < 2 || frame[0] != HCI_EVENT_FRAME {
        let first = if frame.len() > 0 {
            frame[0]
        } else {
            0
        };
        return Err(HciFrameError::UnexpectedFrameType(first));
    }
    let mut evt: Vec<u8> = Vec::new();
    let mut i: usize = 1;
    while i < frame.len()
        invariant
            1 <= i <= frame.len(),
            evt@ == frame@.subrange(1, i as int),
        decreases frame.len() - i,
    {
        evt.push(frame[i]);
        assert(frame@.subrange(1, i + 1) =~= frame@.subrange(1, i as int).push(frame@[i as int]));
        i = i + 1;
    }
    Ok(evt)
}

/// The `LE Connection Update` parameter bytes: the handle, then the
/// requested interval in 1.25 ms units twice (minimum and maximum), latency
/// 0, the 20-second supervision timeout in 10 ms units (2000), and minimum
/// and maximum CE length 1, each 16-bit little-endian.
pub proof fn lemma_conn_update_params_layout(handle: u16, interval_ms: u16)
    ensures
        ({
            let b = spec_conn_update_params(handle, interval_ms);
            let units = interval_ms * 4 / 5;
            &&& b.len() == 14
            &&& b[0] + b[1] * 256 == handle
            &&& b[2] + b[3] * 256 == units
            &&& b[4] + b[5] * 256 == units
            &&& b[6] == 0 && b[7] == 0
            &&& b[8] + b[9] * 256 == 2000
            &&& b[10] == 1 && b[11] == 0 && b[12] == 1 && b[13] == 0
        }),
{
    let b = spec_conn_update_params(handle, interval_ms);
    let units = (interval_ms * 4 / 5) as u16;
    assert(units == interval_ms * 4 / 5);
    assert(((handle % 256) as u8) + ((handle / 256) as u8) * 256 == handle) by (bit_vector);
    assert(((units % 256) as u8) + ((units / 256) as u8) * 256 == units) by (bit_vector);
    assert(b[0] == (handle % 256) as u8 && b[1] == (handle / 256) as u8);
    assert(b[2] == (units % 256) as u8 && b[3] == (units / 256) as u8);
    assert(b[4] == (units % 256) as u8 && b[5] == (units / 256) as u8);
}

/// A command packet is the command type byte 1, the opcode little-endian,
/// the parameter length, then the parameters unchanged.
pub proof fn lemma_command_packet_layout(opcode: u16, params: Seq<u8>)
    requires
        params.len() < 256,
    ensures
        ({
            let b = spec_command_packet(opcode, params);
            &&& b.len() == params.len() + 4
            &&& b[0] == 1
            &&& b[1] + b[2] * 256 == opcode
            &&& b[3] == params.len()
            &&& forall|i: int| 0 <= i < params.len() ==> #[trigger] b[i + 4] == params[i]
        }),
{
    assert(((opcode % 256) as u8) + ((opcode / 256) as u8) * 256 == opcode) by (bit_vector);
    let b = spec_command_packet(opcode, params);
    assert(b[1] == (opcode % 256) as u8 && b[2] == (opcode / 256) as u8);
}

/// Only an event frame (type byte 4) of at least two bytes yields an event,
/// and the event is the frame without its type byte; any other frame is
/// refused with its type byte (0 when empty).
pub proof fn lemma_event_payload_strips_type(frame: Seq<u8>)
    ensures
        (frame.len() >= 2 && frame[0] == 4) ==> (spec_event_payload(frame) matches Ok(evt)
            && evt.len() == frame.len() - 1 && forall|i: int|
            0 <= i < evt.len() ==> #[trigger] evt[i] == frame[i + 1]),
        !(frame.len() >= 2 && frame[0] == 4) ==> spec_event_payload(frame) == Err::<
            Seq<u8>,
            HciFrameError,
        >(HciFrameError::UnexpectedFrameType(if frame.len() > 0 { frame[0] } else { 0 })),
{
}

/// What an HCI event says about a pending `LE Connection Update`.
#[derive(Debug, Clone, Copy, PartialEq, Eq, Structural)]
pub enum ConnUpdateEvent {
    /// The event does not concern the update on this connection.
    Unrelated,
    /// `Command Complete` for the update with a nonzero status.
    CommandCompleteFailed(u8),
    /// `Command Status` for the update with a nonzero status.
    CommandStatusFailed(u8),
    /// The device rejected the update on this connection (nonzero status).
    UpdateRejected(u8),
    /// The update on this connection completed; the negotiated interval in
    /// 1.25 ms units.
    UpdateComplete(u16),
}

/// How an event is read while waiting for the update on connection `handle`.
pub open spec fn spec_classify_event(evt: Seq<u8>, handle: u16) -> ConnUpdateEvent {
    if evt.len() < 2 {
        ConnUpdateEvent::Unrelated
    } else if evt[0] == HCI_EVENT_COMMAND_COMPLETE && evt.len() >= 6 {
        if le16_value(evt[3], evt[4]) == HCI_LE_CONN_UPDATE && evt[5] != 0 {
            ConnUpdateEvent::CommandCompleteFailed(evt[5])
        } else {
            ConnUpdateEvent::Unrelated
        }
    } else if evt[0] == HCI_EVENT_COMMAND_STATUS && evt.len() >= 6 {
        if le16_value(evt[4], evt[5]) == HCI_LE_CONN_UPDATE && evt[2] != 0 {
            ConnUpdateEvent::CommandStatusFailed(evt[2])
        } else {
            ConnUpdateEvent::Unrelated
        }
    } else if evt[0] == HCI_EVENT_LE_META && evt.len() >= 8 && evt[2]
        == LE_SUBEVENT_CONNECTION_UPDATE_COMPLETE {
        if le16_value(evt[4], evt[5]) != handle {
            ConnUpdateEvent::Unrelated
        } else if evt[3] != 0 {
            ConnUpdateEvent::UpdateRejected(evt[3])
        } else {
            ConnUpdateEvent::UpdateComplete(le16_value(evt[6], evt[7]))
        }
    } else {
        ConnUpdateEvent::Unrelated
    }
}

/// Reads an HCI event received while waiting for the update on `handle`.
pub fn classify_conn_update_event(evt: &[u8], handle: u16) -> (outcome: ConnUpdateEvent)
    ensures
        outcome == spec_classify_event(evt@, handle),
{
    if evt.len() < 2 {
        return ConnUpdateEvent::Unrelated;
    }
    if evt[0] == HCI_EVENT_COMMAND_COMPLETE && evt.len() >= 6 {
        if le16_read(evt[3], evt[4]) == HCI_LE_CONN_UPDATE && evt[5] != 0 {
            return ConnUpdateEvent::CommandCompleteFailed(evt[5]);
        }
        return ConnUpdateEvent::Unrelated;
    }
    if evt[0] == HCI_EVENT_COMMAND_STATUS && evt.len() >= 6 {
        if le16_read(evt[4], evt[5]) == HCI_LE_CONN_UPDATE && evt[2] != 0 {
            return ConnUpdateEvent::CommandStatusFailed(evt[2]);
        }
        return ConnUpdateEvent::Unrelated;
    }
    if evt[0] == HCI_EVENT_LE_META && evt.len() >= 8 && evt[2]
        == LE_SUBEVENT_CONNECTION_UPDATE_COMPLETE {
        if le16_read(evt[4], evt[5]) != handle {
            return ConnUpdateEvent::Unrelated;
        }
        if evt[3] != 0 {
            return ConnUpdateEvent::UpdateRejected(evt[3]);
        }
        return ConnUpdateEvent::UpdateComplete(le16_read(evt[6], evt[7]));
    }
    ConnUpdateEvent::Unrelated
}

/// Only the awaited connection's update is accepted: an event reports a
/// completed or rejected update only when it names `handle`.
pub proof fn lemma_update_result_names_handle(evt: Seq<u8>, handle: u16)
    requires
        spec_classify_event(evt, handle) is UpdateComplete || spec_classify_event(
            evt,
            handle,
        ) is UpdateRejected,
    ensures
        evt.len() >= 8,
        evt[0] == HCI_EVENT_LE_META,
        le16_value(evt[4], evt[5]) == handle,
{
}

/// Only the awaited command can fail an attempt: a `Command Status` or
/// `Command Complete` event reports a failure only when it is for opcode
/// 0x2013 (`LE Connection Update`) and carries a nonzero status, and then it
/// always does; a successful `LE Connection Update Complete` for `handle`
/// yields the interval it carries.
pub proof fn lemma_only_awaited_command_fails(evt: Seq<u8>, handle: u16)
    ensures
        spec_classify_event(evt, handle) matches ConnUpdateEvent::CommandStatusFailed(s) ==> (
        evt.len() >= 6 && evt[0] == 0x0f && evt[4] + evt[5] * 256 == 0x2013 && s == evt[2] && s
            != 0),
        spec_classify_event(evt, handle) matches ConnUpdateEvent::CommandCompleteFailed(s) ==> (
        evt.len() >= 6 && evt[0] == 0x0e && evt[3] + evt[4] * 256 == 0x2013 && s == evt[5] && s
            != 0),
        (evt.len() >= 6 && evt[0] == 0x0f && evt[4] + evt[5] * 256 == 0x2013 && evt[2] != 0)
            ==> spec_classify_event(evt, handle) == ConnUpdateEvent::CommandStatusFailed(evt[2]),
        (evt.len() >= 6 && evt[0] == 0x0e && evt[3] + evt[4] * 256 == 0x2013 && evt[5] != 0)
            ==> spec_classify_event(evt, handle) == ConnUpdateEvent::CommandCompleteFailed(evt[5]),
        (evt.len() >= 6 && (evt[0] == 0x0f || evt[0] == 0x0e) && evt[4] + evt[5] * 256 != 0x2013
            && evt[3] + evt[4] * 256 != 0x2013) ==> spec_classify_event(evt, handle)
            == ConnUpdateEvent::Unrelated,
        (evt.len() >= 8 && evt[0] == 0x3e && evt[2] == 0x03 && evt[4] + evt[5] * 256 == handle
            && evt[3] == 0) ==> spec_classify_event(evt, handle) == ConnUpdateEvent::UpdateComplete(
            (evt[6] + evt[7] * 256) as u16,
        ),
{
    if evt.len() >= 6 {
        let (b, c, d) = (evt[3], evt[4], evt[5]);
        assert(le16_value(c, d) == c + d * 256) by (bit_vector);
        assert(le16_value(b, c) == b + c * 256) by (bit_vector);
    }
}

/// ASCII lowercase of a byte; other bytes are unchanged.
pub open spec fn ascii_lower(b: u8) -> u8 {
    if 65 <= b <= 90 {
        (b + 32) as u8
    } else {
        b
    }
}

/// Lowercase ASCII hexadecimal digit of a value below 16.
pub open spec fn hex_lower_byte(d: int) -> u8 {
    if d < 10 {
        (d + 48) as u8
    } else {
        (d + 87) as u8
    }
}

/// A device address as the kernel stores it (least significant byte
/// first), printed most significant byte first as 12 lowercase hex digits.
pub open spec fn spec_bdaddr_hex(bdaddr: Seq<u8>) -> Seq<u8> {
    Seq::new(
        12,
        |i: int|
            {
                let b = bdaddr[5 - i / 2];
                if i % 2 == 0 {
                    hex_lower_byte((b / 16) as int)
                } else {
                    hex_lower_byte((b % 16) as int)
                }
            },
    )
}

/// Whether a byte is not the `:` separator.
pub open spec fn not_colon() -> spec_fn(u8) -> bool {
    |b: u8| b != 58
}

/// An address string's bytes with the `:` separators removed and ASCII
/// letters lowercased.
pub open spec fn spec_normalized_address(address: Seq<u8>) -> Seq<u8> {
    address.filter(not_colon()).map_values(|b: u8| ascii_lower(b))
}

fn hex_digit_byte(d: u8) -> (c: u8)
    requires
        d < 16,
    ensures
        c == hex_lower_byte(d as int),
{
    if d < 10 {
        d + 48
    } else {
        d + 87
    }
}

fn bdaddr_hex(bdaddr: &[u8; 6]) -> (hex: Vec<u8>)
    ensures
        hex@ == spec_bdaddr_hex(bdaddr@),
{
    let mut hex: Vec<u8> = Vec::new();
    let mut k: usize = 0;
    while k < 6
        invariant
            k <= 6,
            hex@.len() == 2 * k,
            forall|i: int| 0 <= i < 2 * k ==> hex@[i] == spec_bdaddr_hex(bdaddr@)[i],
        decreases 6 - k,
    {
        let b = bdaddr[5 - k];
        hex.push(hex_digit_byte(b / 16));
        hex.push(hex_digit_byte(b % 16));
        k = k + 1;
    }
    assert(hex@ =~= spec_bdaddr_hex(bdaddr@));
    hex
}

fn normalized_address(address: &str) -> (norm: Vec<u8>)
    ensures
        norm@ == spec_normalized_address(address.spec_bytes()),
{
    let bytes = address.as_bytes();
    let ghost s = bytes@;
    let mut norm: Vec<u8> = Vec::new();
    let mut i: usize = 0;
    while i < bytes.len()
        invariant
            i <= bytes.len(),
            s == bytes@,
            norm@ == s.take(i as int).filter(not_colon()).map_values(|b: u8| ascii_lower(b)),
        decreases bytes.len() - i,
    {
        let b = bytes[i];
        proof {
            assert(s.take(i + 1) =~= s.take(i as int).push(b));
            s.take(i as int).lemma_filter_push(b, not_colon());
            let f = s.take(i as int).filter(not_colon());
            assert(f.push(b).map_values(|b: u8| ascii_lower(b)) =~= f.map_values(
                |b: u8| ascii_lower(b),
            ).push(ascii_lower(b)));
        }
        if b != 58 {
            let lower = if 65 <= b && b <= 90 {
                b + 32
            } else {
                b
            };
            norm.push(lower);
        }
        i = i + 1;
    }
    assert(s.take(s.len() as int) =~= s);
    norm
}

/// The value of a lowercase hexadecimal digit byte (`0`-`9`, `a`-`f`), or
/// -1 for any other byte.
pub open spec fn hex_digit_value(c: u8) -> int {
    if 48 <= c <= 57 {
        c - 48
    } else if 97 <= c <= 102 {
        c - 87
    } else {
        -1
    }
}

/// The address an entry is compared with spells the entry's six bytes most
/// significant first: twelve lowercase hex digits, digit pair `j` reading
/// back as byte `5 - j`.
pub proof fn lemma_bdaddr_hex_spells_address(bdaddr: Seq<u8>)
    requires
        bdaddr.len() == 6,
    ensures
        spec_bdaddr_hex(bdaddr).len() == 12,
        forall|i: int| 0 <= i < 12 ==> hex_digit_value(#[trigger] spec_bdaddr_hex(bdaddr)[i]) >= 0,
        forall|j: int|
            0 <= j < 6 ==> hex_digit_value(#[trigger] spec_bdaddr_hex(bdaddr)[2 * j]) * 16
                + hex_digit_value(spec_bdaddr_hex(bdaddr)[2 * j + 1]) == bdaddr[5 - j],
{
    let h = spec_bdaddr_hex(bdaddr);
    assert forall|i: int| 0 <= i < 12 implies hex_digit_value(#[trigger] h[i]) >= 0 && (i % 2
        == 0 ==> hex_digit_value(h[i]) == bdaddr[5 - i / 2] / 16) && (i % 2 == 1
        ==> hex_digit_value(h[i]) == bdaddr[5 - i / 2] % 16) by {
        let b = bdaddr[5 - i / 2];
        assert(b / 16 < 16 && b % 16 < 16);
    }
    assert forall|j: int| 0 <= j < 6 implies hex_digit_value(#[trigger] h[2 * j]) * 16
        + hex_digit_value(h[2 * j + 1]) == bdaddr[5 - j] by {
        assert((2 * j) % 2 == 0 && (2 * j) / 2 == j);
        assert((2 * j + 1) % 2 == 1 && (2 * j + 1) / 2 == j);
        assert(hex_digit_value(h[2 * j]) == bdaddr[5 - j] / 16);
        assert(hex_digit_value(h[2 * j + 1]) == bdaddr[5 - j] % 16);
        let b = bdaddr[5 - j];
        assert(b == (b / 16) * 16 + b % 16);
    }
}

proof fn lemma_filter_keeps_all(s: Seq<u8>)
    requires
        forall|i: int| 0 <= i < s.len() ==> #[trigger] s[i] != 58,
    ensures
        s.filter(not_colon()) == s,
    decreases s.len(),
{
    if s.len() == 0 {
        assert(s.filter(not_colon()) =~= s) by {
            reveal(Seq::filter);
        }
    } else {
        let init = s.drop_last();
        assert(forall|i: int| 0 <= i < init.len() ==> init[i] == s[i]);
        lemma_filter_keeps_all(init);
        init.lemma_filter_push(s.last(), not_colon());
        assert(init.push(s.last()) =~= s);
    }
}

/// The configured address is compared without its `:` separators and with
/// ASCII letters lowercased: the compared bytes hold no `:` and no
/// uppercase letter, and an address already free of both is compared as it is.
pub proof fn lemma_normalized_address(address: Seq<u8>)
    ensures
        forall|i: int|
            0 <= i < spec_normalized_address(address).len() ==> #[trigger] spec_normalized_address(
                address,
            )[i] != 58 && !(65 <= spec_normalized_address(address)[i] <= 90),
        (forall|i: int|
            0 <= i < address.len() ==> #[trigger] address[i] != 58 && !(65 <= address[i] <= 90))
            ==> spec_normalized_address(address) == address,
{
    assert forall|i: int| 0 <= i < spec_normalized_address(address).len() implies #[trigger] spec_normalized_address(
        address,
    )[i] != 58 && !(65 <= spec_normalized_address(address)[i] <= 90) by {
        address.lemma_filter_pred(not_colon(), i);
        assert(address.filter(not_colon())[i] != 58);
    }
    if forall|i: int| 0 <= i < address.len() ==> #[trigger] address[i] != 58 && !(65 <= address[i]
        <= 90) {
        lemma_filter_keeps_all(address);
        assert(spec_normalized_address(address) =~= address);
    }
}

/// Whether a connection-list entry's device address is the configured
/// address: the address's bytes without `:` and in ASCII lowercase equal
/// the entry's address as 12 lowercase hex digits.
pub fn bdaddr_matches(bdaddr: &[u8; 6], address: &str) -> (matches: bool)
    ensures
        matches == (spec_normalized_address(address.spec_bytes()) == spec_bdaddr_hex(bdaddr@)),
{
    let expected = bdaddr_hex(bdaddr);
    let norm = normalized_address(address);
    if norm.len() != expected.len() {
        return false;
    }
    let mut i: usize = 0;
    while i < norm.len()
        invariant
            i <= norm.len(),
            norm.len() == expected.len(),
            norm@ == spec_normalized_address(address.spec_bytes()),
            expected@ == spec_bdaddr_hex(bdaddr@),
            forall|j: int| 0 <= j < i ==> norm@[j] == expected@[j],
        decreases norm.len() - i,
    {
        if norm[i] != expected[i] {
            assert(norm@[i as int] != expected@[i as int]);
            return false;
        }
        i = i + 1;
    }
    assert(norm@ =~= expected@);
    true
}

} // verus!
