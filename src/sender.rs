//! The per-source sender: stamps a payload with its source and the publish
//! time, and hands the packet to the bus or to the uplink queue.
use crate::bus::TelemetryBus;
use crate::packet::{DeviceId, Packet, PacketView, Payload, Timestamp, TmPacket, TmPacketView};
use crate::uplink::{TrySendError, UplinkQueue, UplinkView};
use std::time::{Duration, SystemTime, SystemTimeError};
use vstd::prelude::*;

verus! {

/// `std::time::SystemTime`, carried through opaquely.
#[verifier::external_type_specification]
#[verifier::external_body]
pub struct ExSystemTime(SystemTime);

/// `std::time::SystemTimeError`, carried through opaquely.
#[verifier::external_type_specification]
#[verifier::external_body]
pub struct ExSystemTimeError(SystemTimeError);

/// Relies on `SystemTime::now`: the wall-clock time, which nothing here can
/// predict.
#[verifier::external_body]
fn wall_clock_now() -> (r: SystemTime) {
    SystemTime::now()
}

/// Relies on `SystemTime::duration_since`: the time elapsed since the Unix
/// epoch, or an error where the clock reads earlier than it.
#[verifier::external_body]
fn since_unix_epoch(t: &SystemTime) -> (r: Result<Duration, SystemTimeError>) {
    t.duration_since(std::time::UNIX_EPOCH)
}

/// Relies on `Duration::as_nanos`: the whole duration in nanoseconds.
#[verifier::external_body]
fn duration_nanos(d: &Duration) -> (r: u128) {
    d.as_nanos()
}

/// The send failed because the clock reads earlier than the Unix epoch.
#[derive(Clone, Copy, Debug, PartialEq, Eq, Structural)]
pub struct ClockBeforeEpoch;

/// Why a packet did not reach the uplink queue.
#[derive(Debug)]
pub enum UplinkSendError {
    Clock(ClockBeforeEpoch),
    Queue(TrySendError),
}

/// A nanosecond count cut to 64 bits.
pub fn truncate_nanos(n: u128) -> (r: u64)
    ensures
        r == n % 0x1_0000_0000_0000_0000,
{
    (n % 0x1_0000_0000_0000_0000u128) as u64
}

/// The current wall-clock time in nanoseconds since the Unix epoch, cut to
/// 64 bits; an error where the clock reads earlier than the epoch.
pub fn now_nanos() -> (r: Result<u64, ClockBeforeEpoch>) {
    let now = wall_clock_now();
    match since_unix_epoch(&now) {
        Ok(d) => Ok(truncate_nanos(duration_nanos(&d))),
        Err(_) => Err(ClockBeforeEpoch),
    }
}

pub open spec fn stamped(id: DeviceId, timestamp: u64, payload: Seq<u8>) -> PacketView {
    PacketView::TmPacket(TmPacketView { device_id: id, timestamp, payload })
}

/// Stamps payloads with one fixed source.
#[derive(Clone, Copy, Debug, PartialEq, Eq, Structural)]
pub struct TmPacketSender {
    id: DeviceId,
}

impl TmPacketSender {
    pub closed spec fn device(self) -> DeviceId {
        self.id
    }

    pub fn new(id: DeviceId) -> (r: TmPacketSender)
        ensures
            r.device() == id,
    {
        TmPacketSender { id }
    }

    pub fn id(&self) -> (r: DeviceId)
        ensures
            r == self.device(),
    {
        self.id
    }

    /// The packet that carries `payload` from this source at `timestamp`.
    pub fn stamp(&self, timestamp: u64, payload: Payload) -> (r: Packet)
        ensures
            r@ == stamped(self.device(), timestamp, payload@),
    {
        Packet::TmPacket(TmPacket::new(self.id, Timestamp::new(timestamp), payload))
    }

    /// Publishes `payload`, stamped with `timestamp`, onto the bus; returns
    /// how many subscriptions it reached.
    pub fn send_stamped(&self, bus: &mut TelemetryBus, timestamp: u64, payload: Payload) -> (r: usize)
        requires
            old(bus).wf(),
            old(bus)@.log.len() < u64::MAX,
        ensures
            final(bus).wf(),
            final(bus)@ == old(bus)@.publish(stamped(self.device(), timestamp, payload@)),
            (r == 0) == !old(bus)@.has_subscribers(),
    {
        let p = self.stamp(timestamp, payload);
        bus.publish(p)
    }

    /// Publishes `payload` onto the bus, stamped with the current time. It
    /// fails only when the clock reads earlier than the Unix epoch, and then
    /// publishes nothing; no subscriber is needed.
    pub fn send(&self, bus: &mut TelemetryBus, payload: Payload) -> (r: Result<usize, ClockBeforeEpoch>)
        requires
            old(bus).wf(),
            old(bus)@.log.len() < u64::MAX,
        ensures
            final(bus).wf(),
            r is Err ==> final(bus)@ == old(bus)@,
            r is Ok ==> exists|t: u64| final(bus)@ == old(bus)@.publish(#[trigger] stamped(self.device(), t, payload@)),
            r matches Ok(n) ==> (n == 0) == !old(bus)@.has_subscribers(),
    {
        let ghost pv = payload@;
        match now_nanos() {
            Ok(t) => {
                let n = self.send_stamped(bus, t, payload);
                assert(final(bus)@ == old(bus)@.publish(stamped(self.device(), t, pv)));
                Ok(n)
            },
            Err(e) => Err(e),
        }
    }

    /// Queues `payload`, stamped with `timestamp`, on the uplink queue.
    pub fn send_uplink_stamped(&self, queue: &mut UplinkQueue, timestamp: u64, payload: Payload) -> (r: Result<(), TrySendError>)
        requires
            old(queue).wf(),
        ensures
            final(queue).wf(),
            uplink_sent(*old(queue), *final(queue), stamped(self.device(), timestamp, payload@), r),
    {
        let p = self.stamp(timestamp, payload);
        queue.try_send(p)
    }

    /// Queues `payload` on the uplink queue, stamped with the current time.
    pub fn send_uplink(&self, queue: &mut UplinkQueue, payload: Payload) -> (r: Result<(), UplinkSendError>)
        requires
            old(queue).wf(),
        ensures
            final(queue).wf(),
            r matches Err(UplinkSendError::Clock(_)) ==> final(queue)@ == old(queue)@,
            r matches Err(UplinkSendError::Queue(_)) ==> final(queue)@ == old(queue)@,
            r is Ok ==> exists|t: u64| final(queue)@ == (UplinkView {
                queued: old(queue)@.queued.push(#[trigger] stamped(self.device(), t, payload@)),
                accepted: old(queue)@.accepted.push(stamped(self.device(), t, payload@)),
                ..old(queue)@
            }),
            old(queue)@.receiver_open && old(queue)@.queued.len() < old(queue)@.bound ==> !(r matches Err(
                UplinkSendError::Queue(_),
            )),
    {
        let ghost pv = payload@;
        match now_nanos() {
            Ok(t) => {
                match self.send_uplink_stamped(queue, t, payload) {
                    Ok(()) => {
                        assert(final(queue)@.queued == old(queue)@.queued.push(stamped(self.device(), t, pv)));
                        Ok(())
                    },
                    Err(e) => Err(UplinkSendError::Queue(e)),
                }
            },
            Err(e) => Err(UplinkSendError::Clock(e)),
        }
    }
}

/// What a try to queue packet `p` does: refused when the receiver is gone or
/// the queue is full, and then nothing changes; otherwise `p` joins the back.
pub open spec fn uplink_sent(before: UplinkQueue, after: UplinkQueue, p: PacketView, r: Result<(), TrySendError>) -> bool {
    &&& !before@.receiver_open ==> after@ == before@ && (r matches Err(TrySendError::Closed(q)) && q@ == p)
    &&& before@.receiver_open && before@.queued.len() == before@.bound ==> after@ == before@ && (r matches Err(
        TrySendError::Full(q),
    ) && q@ == p)
    &&& before@.receiver_open && before@.queued.len() < before@.bound ==> r is Ok && after@ == (UplinkView {
        queued: before@.queued.push(p),
        accepted: before@.accepted.push(p),
        ..before@
    })
}

} // verus!
