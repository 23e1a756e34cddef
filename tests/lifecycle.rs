use orbisat::bus::{RecvOutcome, TelemetryBus};
use orbisat::framer::SentenceFramer;
use orbisat::packet::{DeviceId, Packet, Payload, Timestamp, TmPacket, MAX_PAYLOAD_LEN};
use orbisat::producers::HeartbeatSender;
use orbisat::sender::{now_nanos, truncate_nanos, TmPacketSender};
use orbisat::signal::{escalation, ShutdownResponse, SmartSignal, FORCED_EXIT_CODE};
use orbisat::supervise::{first_failure, settle, Completion};

#[test]
fn signal_starts_unfired_and_fires_once() {
    let signal = SmartSignal::new();
    let other = signal.clone();
    assert!(!signal.has_fired());
    other.fire();
    assert!(signal.has_fired());
    signal.fire();
    assert!(other.has_fired());
}

#[test]
fn second_request_forces_exit() {
    let signal = SmartSignal::new();
    assert_eq!(signal.on_termination_request(), ShutdownResponse::Graceful);
    assert!(signal.has_fired());
    assert_eq!(signal.on_termination_request(), ShutdownResponse::ForceExit(1));
    assert_eq!(FORCED_EXIT_CODE, 1);
}

#[test]
fn escalation_by_state() {
    assert_eq!(escalation(false), ShutdownResponse::Graceful);
    assert_eq!(escalation(true), ShutdownResponse::ForceExit(1));
}

#[test]
fn cancelled_loop_reports_success() {
    let r: Result<(), String> = settle(Completion::Cancelled);
    assert_eq!(r, Ok(()));
    let r: Result<(), String> = settle(Completion::Finished(Err("sensor".to_string())));
    assert_eq!(r, Err("sensor".to_string()));
}

#[test]
fn shutdown_of_all_loops_is_success() {
    let reports: Vec<Result<(), String>> =
        (0..5).map(|_| settle(Completion::Cancelled)).collect();
    assert_eq!(first_failure(reports), Ok(()));
}

#[test]
fn first_failure_wins() {
    let reports: Vec<Result<(), &str>> = vec![Ok(()), Err("disk"), Ok(()), Err("uart")];
    assert_eq!(first_failure(reports), Err("disk"));
    let none: Vec<Result<(), &str>> = vec![];
    assert_eq!(first_failure(none), Ok(()));
}

#[test]
fn payload_bounds() {
    let max = vec![7u8; MAX_PAYLOAD_LEN];
    assert_eq!(Payload::from_bytes(&max).unwrap().as_bytes(), &max[..]);
    let over = vec![7u8; MAX_PAYLOAD_LEN + 1];
    assert_eq!(Payload::from_bytes(&over).unwrap_err().len, MAX_PAYLOAD_LEN + 1);
    assert_eq!(Payload::from_bytes(&[]).unwrap().len(), 0);
}

#[test]
fn stamp_builds_envelope() {
    let sender = TmPacketSender::new(DeviceId::HumiditySensor);
    let p = sender.stamp(42, Payload::from_bytes(&[1, 2, 3]).unwrap());
    let expected = Packet::TmPacket(TmPacket::new(
        DeviceId::HumiditySensor,
        Timestamp::new(42),
        Payload::from_bytes(&[1, 2, 3]).unwrap(),
    ));
    assert_eq!(p, expected);
    let Packet::TmPacket(tm) = p;
    assert_eq!(tm.timestamp().get(), 42);
    assert_eq!(tm.device_id(), DeviceId::HumiditySensor);
}

#[test]
fn send_publishes_with_current_time() {
    let mut bus = TelemetryBus::new(4);
    bus.add_publisher();
    let sub = bus.subscribe();
    let before = now_nanos().unwrap();
    let n = TmPacketSender::new(DeviceId::TemperatureSensor)
        .send(&mut bus, Payload::from_bytes(&[5]).unwrap())
        .unwrap();
    assert_eq!(n, 1);
    match bus.try_recv(sub) {
        RecvOutcome::Packet(Packet::TmPacket(p)) => {
            assert_eq!(p.device_id(), DeviceId::TemperatureSensor);
            assert!(p.timestamp().get() >= before);
        }
        other => panic!("expected packet, got {:?}", other),
    }
}

#[test]
fn send_without_subscriber_succeeds() {
    let mut bus = TelemetryBus::new(4);
    let r = TmPacketSender::new(DeviceId::Accelerometer).send(&mut bus, Payload::from_bytes(&[5]).unwrap());
    assert_eq!(r, Ok(0));
}

#[test]
fn heartbeat_payload() {
    let mut bus = TelemetryBus::new(4);
    let sub = bus.subscribe();
    HeartbeatSender::new().beat(&mut bus).unwrap();
    match bus.try_recv(sub) {
        RecvOutcome::Packet(Packet::TmPacket(p)) => {
            assert_eq!(p.device_id(), DeviceId::System);
            assert_eq!(p.payload().as_bytes(), b"HEARTBEAT");
        }
        other => panic!("expected packet, got {:?}", other),
    }
    assert!(matches!(bus.try_recv(sub), RecvOutcome::Closed));
}

#[test]
fn nanos_truncate_to_64_bits() {
    assert_eq!(truncate_nanos(5), 5);
    assert_eq!(truncate_nanos((1u128 << 64) + 3), 3);
}

#[test]
fn framer_splits_on_crlf() {
    let mut f = SentenceFramer::new();
    let mut out = Vec::new();
    for &b in b"$GP\0A\r\n$B\nC\r\n" {
        if let Some(s) = f.push(b) {
            out.push(s);
        }
    }
    assert_eq!(out, vec![b"$GPA".to_vec(), b"$B\nC".to_vec()]);
}

#[test]
fn framer_keeps_carriage_return_pending() {
    let mut f = SentenceFramer::new();
    assert_eq!(f.push(b'\r'), None);
    assert_eq!(f.push(b'X'), None);
    assert_eq!(f.push(b'\n'), Some(b"X".to_vec()));
}
