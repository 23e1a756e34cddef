use orbisat::packet::{DeviceId, Packet, Payload};
use orbisat::producers::{DummySender, DUMMY_BYTE};
use orbisat::sender::TmPacketSender;
use orbisat::uplink::{QueueRecv, TrySendError, UplinkQueue};

fn packet(ts: u64) -> Packet {
    TmPacketSender::new(DeviceId::GPS).stamp(ts, Payload::from_bytes(&[1, 2, ts as u8]).unwrap())
}

#[test]
fn queue_delivers_everything_in_order_under_backpressure() {
    let mut q = UplinkQueue::new(2);
    let mut received = Vec::new();
    let mut next = 0u64;
    while next < 7 {
        match q.try_send(packet(next)) {
            Ok(()) => next += 1,
            Err(TrySendError::Full(_)) => {
                if let QueueRecv::Packet(p) = q.try_recv() {
                    received.push(p);
                }
            }
            Err(TrySendError::Closed(_)) => panic!("receiver closed"),
        }
    }
    q.close_sender();
    loop {
        match q.try_recv() {
            QueueRecv::Packet(p) => received.push(p),
            QueueRecv::Closed => break,
            QueueRecv::Empty => panic!("sender closed but queue reported empty"),
        }
    }
    let expected: Vec<Packet> = (0..7u64).map(packet).collect();
    assert_eq!(received, expected);
}

#[test]
fn full_queue_hands_packet_back() {
    let mut q = UplinkQueue::new(1);
    assert!(q.try_send(packet(1)).is_ok());
    match q.try_send(packet(2)) {
        Err(TrySendError::Full(p)) => assert_eq!(p, packet(2)),
        other => panic!("expected full, got {:?}", other),
    }
    assert_eq!(q.len(), 1);
}

#[test]
fn closed_receiver_refuses_send() {
    let mut q = UplinkQueue::new(3);
    q.close_receiver();
    match q.try_send(packet(1)) {
        Err(TrySendError::Closed(p)) => assert_eq!(p, packet(1)),
        other => panic!("expected closed, got {:?}", other),
    }
}

#[test]
fn empty_queue_with_sender_is_empty() {
    let mut q = UplinkQueue::new(3);
    assert!(matches!(q.try_recv(), QueueRecv::Empty));
}

#[test]
fn dummy_sender_queues_one_byte_packet() {
    let mut q = UplinkQueue::new(3);
    let dummy = DummySender::new();
    assert!(dummy.tick(&mut q).is_ok());
    match q.try_recv() {
        QueueRecv::Packet(Packet::TmPacket(p)) => {
            assert_eq!(p.device_id(), DeviceId::MissingDevice);
            assert_eq!(p.payload().as_bytes(), &[DUMMY_BYTE][..]);
            assert!(p.timestamp().get() > 0);
        }
        other => panic!("expected packet, got {:?}", other),
    }
}
