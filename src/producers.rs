//! Producers whose measurement is fixed: the heartbeat on the bus and the
//! test sender on the uplink queue.
use crate::bus::TelemetryBus;
use crate::packet::{DeviceId, Payload};
use crate::sender::{stamped, ClockBeforeEpoch, TmPacketSender, UplinkSendError};
use crate::uplink::{UplinkQueue, UplinkView};
use vstd::prelude::*;

verus! {

/// Bytes of the heartbeat payload.
pub open spec fn heartbeat_bytes() -> Seq<u8> {
    seq![72u8, 69, 65, 82, 84, 66, 69, 65, 84]
}

/// Publishes a heartbeat from the system source.
#[derive(Clone, Copy, Debug)]
pub struct HeartbeatSender {
    packet_sender: TmPacketSender,
}

impl HeartbeatSender {
    pub closed spec fn sender(self) -> TmPacketSender {
        self.packet_sender
    }

    pub fn new() -> (r: HeartbeatSender)
        ensures
            r.sender().device() == DeviceId::System,
    {
        HeartbeatSender { packet_sender: TmPacketSender::new(DeviceId::System) }
    }

    /// Publishes one heartbeat packet, stamped with the current time.
    pub fn beat(&self, bus: &mut TelemetryBus) -> (r: Result<usize, ClockBeforeEpoch>)
        requires
            old(bus).wf(),
            old(bus)@.log.len() < u64::MAX,
        ensures
            final(bus).wf(),
            r is Err ==> final(bus)@ == old(bus)@,
            r is Ok ==> exists|t: u64|
                final(bus)@ == old(bus)@.publish(#[trigger] stamped(self.sender().device(), t, heartbeat_bytes())),
    {
        let bytes: [u8; 9] = [72, 69, 65, 82, 84, 66, 69, 65, 84];
        let payload = Payload::from_bytes(&bytes).unwrap();
        proof {
            assert(bytes@ =~= heartbeat_bytes());
        }
        self.packet_sender.send(bus, payload)
    }
}

/// Queues a one-byte test packet from the unknown source on the uplink.
#[derive(Clone, Copy, Debug)]
pub struct DummySender {
    packet_sender: TmPacketSender,
}

/// The byte that a test packet carries.
pub const DUMMY_BYTE: u8 = 11;

impl DummySender {
    pub closed spec fn sender(self) -> TmPacketSender {
        self.packet_sender
    }

    pub fn new() -> (r: DummySender)
        ensures
            r.sender().device() == DeviceId::MissingDevice,
    {
        DummySender { packet_sender: TmPacketSender::new(DeviceId::MissingDevice) }
    }

    /// Queues one test packet, stamped with the current time.
    pub fn tick(&self, queue: &mut UplinkQueue) -> (r: Result<(), UplinkSendError>)
        requires
            old(queue).wf(),
        ensures
            final(queue).wf(),
            r is Err ==> final(queue)@ == old(queue)@,
            r is Ok ==> exists|t: u64| final(queue)@ == (UplinkView {
                queued: old(queue)@.queued.push(#[trigger] stamped(self.sender().device(), t, seq![DUMMY_BYTE])),
                accepted: old(queue)@.accepted.push(stamped(self.sender().device(), t, seq![DUMMY_BYTE])),
                ..old(queue)@
            }),
    {
        let bytes: [u8; 1] = [DUMMY_BYTE];
        let payload = Payload::from_bytes(&bytes).unwrap();
        proof {
            assert(bytes@ =~= seq![DUMMY_BYTE]);
        }
        self.packet_sender.send_uplink(queue, payload)
    }
}

} // verus!
