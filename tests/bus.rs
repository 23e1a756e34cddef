use orbisat::bus::{RecvOutcome, TelemetryBus};
use orbisat::packet::{DeviceId, Packet, Payload};
use orbisat::sender::TmPacketSender;

fn packet(ts: u64) -> Packet {
    TmPacketSender::new(DeviceId::PressureSensor).stamp(ts, Payload::from_bytes(&[ts as u8]).unwrap())
}

fn expect_packet(out: RecvOutcome, ts: u64) {
    match out {
        RecvOutcome::Packet(p) => assert_eq!(p, packet(ts)),
        other => panic!("expected packet {}, got {:?}", ts, other),
    }
}

#[test]
fn in_order_without_lag() {
    let mut bus = TelemetryBus::new(4);
    bus.add_publisher();
    let sub = bus.subscribe();
    for ts in 0..4u64 {
        assert_eq!(bus.publish(packet(ts)), 1);
    }
    for ts in 0..4u64 {
        expect_packet(bus.try_recv(sub), ts);
    }
    assert!(matches!(bus.try_recv(sub), RecvOutcome::Empty));
}

#[test]
fn interleaved_reads_keep_order() {
    let mut bus = TelemetryBus::new(2);
    bus.add_publisher();
    let sub = bus.subscribe();
    for ts in 0..10u64 {
        bus.publish(packet(ts));
        expect_packet(bus.try_recv(sub), ts);
    }
}

#[test]
fn lag_reports_exact_skip_count() {
    let mut bus = TelemetryBus::new(3);
    bus.add_publisher();
    let sub = bus.subscribe();
    for ts in 0..8u64 {
        bus.publish(packet(ts));
    }
    assert!(matches!(bus.try_recv(sub), RecvOutcome::Lagged(5)));
    expect_packet(bus.try_recv(sub), 5);
    expect_packet(bus.try_recv(sub), 6);
    expect_packet(bus.try_recv(sub), 7);
    assert!(matches!(bus.try_recv(sub), RecvOutcome::Empty));
}

#[test]
fn publish_without_subscribers_is_dropped() {
    let mut bus = TelemetryBus::new(3);
    bus.add_publisher();
    assert_eq!(bus.publish(packet(1)), 0);
    assert_eq!(bus.published(), 0);
    let sub = bus.subscribe();
    assert!(matches!(bus.try_recv(sub), RecvOutcome::Empty));
    bus.publish(packet(2));
    expect_packet(bus.try_recv(sub), 2);
}

#[test]
fn subscription_starts_now() {
    let mut bus = TelemetryBus::new(5);
    bus.add_publisher();
    let first = bus.subscribe();
    bus.publish(packet(1));
    let second = bus.subscribe();
    bus.publish(packet(2));
    expect_packet(bus.try_recv(first), 1);
    expect_packet(bus.try_recv(first), 2);
    expect_packet(bus.try_recv(second), 2);
    assert!(matches!(bus.try_recv(second), RecvOutcome::Empty));
}

#[test]
fn closed_after_last_publisher_and_drained() {
    let mut bus = TelemetryBus::new(2);
    bus.add_publisher();
    let sub = bus.subscribe();
    bus.publish(packet(9));
    bus.remove_publisher();
    expect_packet(bus.try_recv(sub), 9);
    assert!(matches!(bus.try_recv(sub), RecvOutcome::Closed));
}

#[test]
fn drain_reports_skips_then_packets() {
    let mut bus = TelemetryBus::new(2);
    bus.add_publisher();
    let sub = bus.subscribe();
    for ts in 0..5u64 {
        bus.publish(packet(ts));
    }
    let d = bus.drain(sub);
    assert_eq!(d.skipped, 3);
    assert_eq!(d.packets, vec![packet(3), packet(4)]);
    assert!(!d.closed);
    let d = bus.drain(sub);
    assert_eq!(d.skipped, 0);
    assert!(d.packets.is_empty());
}

#[test]
fn unsubscribed_cursor_no_longer_keeps_packets() {
    let mut bus = TelemetryBus::new(2);
    bus.add_publisher();
    let sub = bus.subscribe();
    bus.unsubscribe(sub);
    assert_eq!(bus.publish(packet(1)), 0);
    assert_eq!(bus.published(), 0);
}

#[test]
fn capacity_one_keeps_newest() {
    let mut bus = TelemetryBus::new(1);
    bus.add_publisher();
    let sub = bus.subscribe();
    bus.publish(packet(1));
    bus.publish(packet(2));
    assert!(matches!(bus.try_recv(sub), RecvOutcome::Lagged(1)));
    expect_packet(bus.try_recv(sub), 2);
    assert!(matches!(bus.try_recv(sub), RecvOutcome::Empty));
}

#[test]
fn partial_reader_lags_by_unread_overflow() {
    let mut bus = TelemetryBus::new(3);
    bus.add_publisher();
    let sub = bus.subscribe();
    for ts in 0..3u64 {
        bus.publish(packet(ts));
    }
    expect_packet(bus.try_recv(sub), 0);
    for ts in 3..7u64 {
        bus.publish(packet(ts));
    }
    assert!(matches!(bus.try_recv(sub), RecvOutcome::Lagged(3)));
    expect_packet(bus.try_recv(sub), 4);
}

#[test]
fn each_subscription_has_its_own_cursor() {
    let mut bus = TelemetryBus::new(2);
    bus.add_publisher();
    let slow = bus.subscribe();
    let fast = bus.subscribe();
    for ts in 0..4u64 {
        assert_eq!(bus.publish(packet(ts)), 2);
        expect_packet(bus.try_recv(fast), ts);
    }
    assert!(matches!(bus.try_recv(slow), RecvOutcome::Lagged(2)));
    expect_packet(bus.try_recv(slow), 2);
    assert!(matches!(bus.try_recv(fast), RecvOutcome::Empty));
}
