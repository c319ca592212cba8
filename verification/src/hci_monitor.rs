//! Decoding of frames from the HCI monitor channel, for the events the
//! bridge reacts to: disconnections and the status of `LE Set Random
//! Address` (reported), and completed connection updates, which the
//! interval guard answers by re-applying the configured interval.

use crate::hci::{
    le16_value, HCI_EVENT_COMMAND_STATUS, HCI_EVENT_LE_META, LE_SUBEVENT_CONNECTION_UPDATE_COMPLETE,
};
use crate::resilience::elapsed_below;
use vstd::prelude::*;

verus! {

/// Size of a monitor frame header: opcode, index and length, each 16-bit little-endian.
pub const HCI_MON_HDR_SIZE: usize = 6;

/// Monitor opcode of an HCI event.
pub const HCI_MON_EVENT_PKT: u16 = 3;

/// `Disconnection Complete` event code.
pub const HCI_EVENT_DISCONNECTION_COMPLETE: u8 = 0x05;

/// Opcode of `LE Set Random Address`.
pub const LE_SET_RANDOM_ADDRESS: u16 = 0x2005;

/// A diagnostic event seen on the monitor channel.
#[derive(Debug, Clone, Copy, PartialEq, Eq, Structural)]
pub enum MonitorEvent {
    /// A link was disconnected, with the HCI reason code.
    DisconnectionComplete { reason: u8 },
    /// `Command Status` for `LE Set Random Address`, with its status.
    SetRandomAddressStatus { status: u8 },
    /// `LE Connection Update Complete`: the status, the connection handle
    /// and the new interval in 1.25 ms units.
    ConnectionUpdateComplete { status: u8, handle: u16, interval: u16 },
}

/// The diagnostic event an HCI event carries, if any.
pub open spec fn spec_decode_hci_event(evt: Seq<u8>) -> Option<MonitorEvent> {
    if evt.len() < 2 {
        None
    } else if evt[0] == HCI_EVENT_DISCONNECTION_COMPLETE && evt.len() >= 6 {
        Some(MonitorEvent::DisconnectionComplete { reason: evt[5] })
    } else if evt[0] == HCI_EVENT_COMMAND_STATUS && evt.len() >= 6 && le16_value(evt[4], evt[5])
        == LE_SET_RANDOM_ADDRESS {
        Some(MonitorEvent::SetRandomAddressStatus { status: evt[2] })
    } else if evt[0] == HCI_EVENT_LE_META && evt.len() >= 8 && evt[2]
        == LE_SUBEVENT_CONNECTION_UPDATE_COMPLETE {
        Some(
            MonitorEvent::ConnectionUpdateComplete {
                status: evt[3],
                handle: le16_value(evt[4], evt[5]),
                interval: le16_value(evt[6], evt[7]),
            },
        )
    } else {
        None
    }
}

/// The diagnostic event a monitor frame carries: frames shorter than their
/// header or than the length it declares, and frames that are not events,
/// carry none.
pub open spec fn spec_decode_monitor_packet(data: Seq<u8>) -> Option<MonitorEvent> {
    if data.len() < HCI_MON_HDR_SIZE {
        None
    } else {
        let opcode = le16_value(data[0], data[1]);
        let len = le16_value(data[4], data[5]) as int;
        if data.len() < HCI_MON_HDR_SIZE + len {
            None
        } else if opcode == HCI_MON_EVENT_PKT {
            spec_decode_hci_event(data.subrange(6, 6 + len))
        } else {
            None
        }
    }
}

/// What the monitor reports of an HCI event: a `Disconnection Complete`
/// (code 5) with the reason at byte 5; a `Command Status` (code 0x0f) for
/// opcode 0x2005 with the status at byte 2; an `LE Meta` event (code 0x3e)
/// of subevent 3 with the status at byte 3 and the handle and interval as
/// 16-bit little-endian values at bytes 4 and 6; nothing for any other event.
pub proof fn lemma_hci_event_fields(evt: Seq<u8>)
    ensures
        (evt.len() >= 6 && evt[0] == 5) ==> spec_decode_hci_event(evt) == Some(
            MonitorEvent::DisconnectionComplete { reason: evt[5] },
        ),
        (evt.len() >= 6 && evt[0] == 0x0f && evt[4] + evt[5] * 256 == 0x2005)
            ==> spec_decode_hci_event(evt) == Some(
            MonitorEvent::SetRandomAddressStatus { status: evt[2] },
        ),
        (evt.len() >= 8 && evt[0] == 0x3e && evt[2] == 3) ==> spec_decode_hci_event(evt) == Some(
            MonitorEvent::ConnectionUpdateComplete {
                status: evt[3],
                handle: (evt[4] + evt[5] * 256) as u16,
                interval: (evt[6] + evt[7] * 256) as u16,
            },
        ),
        spec_decode_hci_event(evt) is Some ==> ((evt.len() >= 6 && evt[0] == 5) || (evt.len()
            >= 6 && evt[0] == 0x0f && evt[4] + evt[5] * 256 == 0x2005) || (evt.len() >= 8
            && evt[0] == 0x3e && evt[2] == 3)),
{
    if evt.len() >= 6 {
        let (c, d) = (evt[4], evt[5]);
        assert(le16_value(c, d) == c + d * 256) by (bit_vector);
    }
}

/// A monitor frame carries an event only when it is complete and of the
/// event opcode (3): its six-byte header declares the event's length
/// (bytes 4 and 5, little-endian) and the event follows it.
pub proof fn lemma_monitor_frame_layout(data: Seq<u8>)
    ensures
        data.len() < 6 ==> spec_decode_monitor_packet(data) is None,
        data.len() >= 6 && data[0] + data[1] * 256 != 3 ==> spec_decode_monitor_packet(data) is None,
        data.len() >= 6 && data.len() < 6 + data[4] + data[5] * 256 ==> spec_decode_monitor_packet(
            data,
        ) is None,
        (data.len() >= 6 && data[0] + data[1] * 256 == 3 && data.len() >= 6 + data[4] + data[5]
            * 256) ==> spec_decode_monitor_packet(data) == spec_decode_hci_event(
            data.subrange(6, 6 + data[4] + data[5] * 256),
        ),
{
    if data.len() >= 6 {
        let (a, b, c, d) = (data[0], data[1], data[4], data[5]);
        assert(le16_value(a, b) == a + b * 256) by (bit_vector);
        assert(le16_value(c, d) == c + d * 256) by (bit_vector);
    }
}

/// The guard never answers a failed update or one already at the target,
/// and answers the first successful update to another interval.
pub proof fn lemma_guard_answers_moves_only(g: IntervalGuardView, status: u8, interval: u16, now: i128)
    ensures
        status != 0 ==> !spec_guard_reapplies(g, status, interval, now),
        interval == g.target_units ==> !spec_guard_reapplies(g, status, interval, now),
        (status == 0 && interval != g.target_units && g.last_reapply is None)
            ==> spec_guard_reapplies(g, status, interval, now),
{
}

/// Decodes an HCI event for the diagnostic events.
pub fn decode_hci_event(evt: &[u8]) -> (event: Option<MonitorEvent>)
    ensures
        event == spec_decode_hci_event(evt@),
{
    if evt.len() < 2 {
        return None;
    }
    if evt[0] == HCI_EVENT_DISCONNECTION_COMPLETE && evt.len() >= 6 {
        return Some(MonitorEvent::DisconnectionComplete { reason: evt[5] });
    }
    if evt[0] == HCI_EVENT_COMMAND_STATUS && evt.len() >= 6 {
        let op = evt[4] as u16 + (evt[5] as u16) * 256;
        if op == LE_SET_RANDOM_ADDRESS {
            return Some(MonitorEvent::SetRandomAddressStatus { status: evt[2] });
        }
        return None;
    }
    if evt[0] == HCI_EVENT_LE_META && evt.len() >= 8 && evt[2]
        == LE_SUBEVENT_CONNECTION_UPDATE_COMPLETE {
        return Some(
            MonitorEvent::ConnectionUpdateComplete {
                status: evt[3],
                handle: evt[4] as u16 + (evt[5] as u16) * 256,
                interval: evt[6] as u16 + (evt[7] as u16) * 256,
            },
        );
    }
    None
}

/// Decodes a frame read from the HCI monitor socket.
pub fn decode_monitor_packet(data: &[u8]) -> (event: Option<MonitorEvent>)
    ensures
        event == spec_decode_monitor_packet(data@),
{
    if data.len() < HCI_MON_HDR_SIZE {
        return None;
    }
    let opcode = data[0] as u16 + (data[1] as u16) * 256;
    let len = (data[4] as u16 + (data[5] as u16) * 256) as usize;
    if data.len() - HCI_MON_HDR_SIZE < len {
        return None;
    }
    if opcode != HCI_MON_EVENT_PKT {
        return None;
    }
    let payload = vstd::slice::slice_subrange(data, HCI_MON_HDR_SIZE, HCI_MON_HDR_SIZE + len);
    decode_hci_event(payload)
}

/// Least time between two re-applications by the interval guard: 3 seconds.
pub const GUARD_REAPPLY_MIN_GAP: i128 = 3_000_000_000;

/// Watches completed connection updates and decides when to re-apply the
/// configured interval after the peripheral has moved it.
pub struct IntervalGuard {
    target_units: u16,
    last_reapply: Option<i128>,
}

/// The guard as the contracts see it: the target interval in 1.25 ms units
/// and when it last re-applied it.
pub struct IntervalGuardView {
    pub target_units: u16,
    pub last_reapply: Option<i128>,
}

impl View for IntervalGuard {
    type V = IntervalGuardView;

    closed spec fn view(&self) -> IntervalGuardView {
        IntervalGuardView { target_units: self.target_units, last_reapply: self.last_reapply }
    }
}

/// Whether the guard re-applies after an update at `now`: the update
/// succeeded, its interval is not the target, and the last re-application
/// (if any) lies at least 3 seconds back.
pub open spec fn spec_guard_reapplies(
    g: IntervalGuardView,
    status: u8,
    interval: u16,
    now: i128,
) -> bool {
    status == 0 && interval != g.target_units && match g.last_reapply {
        Some(t) => now - t >= GUARD_REAPPLY_MIN_GAP,
        None => true,
    }
}

impl IntervalGuard {
    /// A guard for a target interval in milliseconds.
    pub fn new(target_ms: u16) -> (guard: Self)
        ensures
            guard@.target_units == target_ms * 4 / 5,
            guard@.last_reapply is None,
    {
        IntervalGuard { target_units: crate::hci::interval_units(target_ms), last_reapply: None }
    }

    /// Records a completed connection update at `now`; returns whether to
    /// re-apply the target interval, and remembers `now` when it does.
    pub fn on_update(&mut self, status: u8, interval: u16, now: i128) -> (reapply: bool)
        ensures
            reapply == spec_guard_reapplies(old(self)@, status, interval, now),
            final(self)@.target_units == old(self)@.target_units,
            final(self)@.last_reapply == if reapply {
                Some(now)
            } else {
                old(self)@.last_reapply
            },
    {
        if status != 0 || interval == self.target_units {
            return false;
        }
        let due = match self.last_reapply {
            Some(t) => !elapsed_below(now, t, GUARD_REAPPLY_MIN_GAP),
            None => true,
        };
        if due {
            self.last_reapply = Some(now);
        }
        due
    }
}

/// The guard re-applies at most once in any 3 seconds: right after a
/// re-application at `t`, an update less than 3 seconds later is not answered.
pub proof fn lemma_guard_rate_limited(
    g: IntervalGuardView,
    t: i128,
    status: u8,
    interval: u16,
    now: i128,
)
    requires
        g.last_reapply == Some(t),
        now - t < GUARD_REAPPLY_MIN_GAP,
    ensures
        !spec_guard_reapplies(g, status, interval, now),
{
}

} // verus!
