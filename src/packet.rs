//! The packet envelope that moves through the system.
use vstd::prelude::*;

verus! {

/// Largest payload, in bytes, that a packet may carry.
pub const MAX_PAYLOAD_LEN: usize = 32;

/// Origin of a packet.
#[derive(Clone, Copy, Debug, PartialEq, Eq, Structural, Hash)]
pub enum DeviceId {
    MissingDevice,
    PressureSensor,
    TemperatureSensor,
    HumiditySensor,
    GPS,
    Accelerometer,
    System,
}

/// Nanoseconds since the Unix epoch, taken when a packet is published.
#[derive(Clone, Copy, Debug, PartialEq, Eq, Structural, Hash)]
pub struct Timestamp {
    nanos: u64,
}

impl Timestamp {
    pub closed spec fn nanos(self) -> u64 {
        self.nanos
    }

    pub fn new(nanos: u64) -> (r: Timestamp)
        ensures
            r.nanos() == nanos,
    {
        Timestamp { nanos }
    }

    pub fn get(&self) -> (r: u64)
        ensures
            r == self.nanos(),
    {
        self.nanos
    }
}

/// Rejection of a payload longer than `MAX_PAYLOAD_LEN` bytes.
#[derive(Clone, Copy, Debug, PartialEq, Eq, Structural)]
pub struct PayloadTooLong {
    pub len: usize,
}

/// An instrument-specific byte string of bounded length.
#[derive(Debug, PartialEq, Eq, Hash)]
pub struct Payload {
    bytes: Vec<u8>,
}

impl View for Payload {
    type V = Seq<u8>;

    closed spec fn view(&self) -> Seq<u8> {
        self.bytes@
    }
}

impl Payload {
    #[verifier::type_invariant]
    spec fn within_bound(&self) -> bool {
        self.bytes@.len() <= MAX_PAYLOAD_LEN
    }

    /// Copies `bytes` into a payload; fails when they are too many.
    pub fn from_bytes(bytes: &[u8]) -> (r: Result<Payload, PayloadTooLong>)
        ensures
            bytes@.len() <= MAX_PAYLOAD_LEN ==> r is Ok && r->Ok_0@ == bytes@,
            bytes@.len() > MAX_PAYLOAD_LEN ==> r == Err::<Payload, PayloadTooLong>(
                PayloadTooLong { len: bytes@.len() as usize },
            ),
    {
        if bytes.len() > MAX_PAYLOAD_LEN {
            return Err(PayloadTooLong { len: bytes.len() });
        }
        let mut out: Vec<u8> = Vec::with_capacity(bytes.len());
        let mut i: usize = 0;
        while i < bytes.len()
            invariant
                i <= bytes@.len(),
                out@ == bytes@.subrange(0, i as int),
            decreases bytes@.len() - i,
        {
            out.push(bytes[i]);
            i = i + 1;
        }
        assert(out@ =~= bytes@);
        Ok(Payload { bytes: out })
    }

    pub fn as_bytes(&self) -> (r: &[u8])
        ensures
            r@ == self@,
    {
        self.bytes.as_slice()
    }

    pub fn len(&self) -> (r: usize)
        ensures
            r == self@.len(),
            r <= MAX_PAYLOAD_LEN,
    {
        proof {
            use_type_invariant(self);
        }
        self.bytes.len()
    }

    /// A copy with the same bytes.
    pub fn duplicate(&self) -> (r: Payload)
        ensures
            r@ == self@,
    {
        proof {
            use_type_invariant(self);
        }
        let r = Payload { bytes: self.bytes.clone() };
        assert(r@ =~= self@);
        r
    }
}

impl Clone for Payload {
    fn clone(&self) -> (r: Payload)
        ensures
            r@ == self@,
    {
        self.duplicate()
    }
}

/// A telemetry packet: a payload stamped with its source and publish time.
#[derive(Clone, Debug, PartialEq, Eq, Hash)]
pub struct TmPacket {
    device_id: DeviceId,
    timestamp: Timestamp,
    payload: Payload,
}

/// What a telemetry packet holds.
pub struct TmPacketView {
    pub device_id: DeviceId,
    pub timestamp: u64,
    pub payload: Seq<u8>,
}

impl View for TmPacket {
    type V = TmPacketView;

    closed spec fn view(&self) -> TmPacketView {
        TmPacketView {
            device_id: self.device_id,
            timestamp: self.timestamp.nanos(),
            payload: self.payload@,
        }
    }
}

impl TmPacket {
    pub fn new(device_id: DeviceId, timestamp: Timestamp, payload: Payload) -> (r: TmPacket)
        ensures
            r@ == (TmPacketView { device_id, timestamp: timestamp.nanos(), payload: payload@ }),
    {
        TmPacket { device_id, timestamp, payload }
    }

    pub fn device_id(&self) -> (r: DeviceId)
        ensures
            r == self@.device_id,
    {
        self.device_id
    }

    pub fn timestamp(&self) -> (r: Timestamp)
        ensures
            r.nanos() == self@.timestamp,
    {
        self.timestamp
    }

    pub fn payload(&self) -> (r: &Payload)
        ensures
            r@ == self@.payload,
    {
        &self.payload
    }

    pub fn duplicate(&self) -> (r: TmPacket)
        ensures
            r@ == self@,
    {
        TmPacket {
            device_id: self.device_id,
            timestamp: self.timestamp,
            payload: self.payload.duplicate(),
        }
    }
}

/// The envelope moved through the bus and the uplink queue.
#[derive(Clone, Debug, PartialEq, Eq, Hash)]
pub enum Packet {
    TmPacket(TmPacket),
}

/// What a packet holds.
pub enum PacketView {
    TmPacket(TmPacketView),
}

impl View for Packet {
    type V = PacketView;

    open spec fn view(&self) -> PacketView {
        match self {
            Packet::TmPacket(p) => PacketView::TmPacket(p@),
        }
    }
}

impl Packet {
    /// A copy with the same contents.
    pub fn duplicate(&self) -> (r: Packet)
        ensures
            r@ == self@,
    {
        match self {
            Packet::TmPacket(p) => Packet::TmPacket(p.duplicate()),
        }
    }
}

} // verus!
