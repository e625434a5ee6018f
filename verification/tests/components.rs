//! Tests of the surrounding components: the latest-frame slot, the device
//! runner, the broadcast registry, the websocket decisions, and the flow
//! scaffolding.

use habctl::broadcast::{Broadcast, BroadcastMessage, Channel, DatetimeTick, ReceiverIdentity};
use habctl::config::Mppt as MpptConfig;
use habctl::decoder::VeDirectMpptDecoder;
use habctl::frame::MpptFrame;
use habctl::network::socket::{HeartbeatAction, UiAction, UiMessage, UISocket};
use habctl::runner::{Device, VeDirectMppt};
use habctl::slot::TelemetrySlot;
use habctl::explore_flow;

fn small_block() -> Vec<u8> {
    // \r\n V TAB 12000 \r\n Checksum TAB ck, balanced by hand
    let mut bytes: Vec<u8> = b"\r\nV\t12000\r\nChecksum\t".to_vec();
    let sum: u8 = bytes.iter().fold(0u8, |a, b| a.wrapping_add(*b));
    bytes.push(0u8.wrapping_sub(sum));
    bytes.extend_from_slice(b"\r\n");
    bytes
}

#[test]
fn slot_returns_the_latest_frame() {
    let slot = TelemetrySlot::new();
    assert!(slot.latest().is_none());

    let mut f = MpptFrame::default();
    f.timestamp = Some(17);
    f.battery_voltage = Some(12_000);
    f.serial_number = Some(b"HQ".to_vec());
    slot.store(f.duplicate());
    let got = slot.latest().expect("a frame was stored");
    assert_eq!(got, f);

    let mut g = MpptFrame::default();
    g.timestamp = Some(18);
    g.panel_power = Some(9);
    slot.store(g.duplicate());
    let got = slot.latest().expect("a frame was stored");
    assert_eq!(got, g);
}

#[test]
fn frame_duplicate_is_equal() {
    let mut f = MpptFrame::default();
    f.firmware_version = Some(b"159".to_vec());
    f.battery_current = Some(-5);
    let g = f.duplicate();
    assert_eq!(f, g);
}

#[test]
fn runner_publishes_what_it_decodes() {
    let dev = VeDirectMppt::loopback("mppt0");
    let mut dec = VeDirectMpptDecoder::default();
    let frames = dev.ingest(&mut dec, &small_block(), 11);
    assert_eq!(frames.len(), 1);
    assert_eq!(frames[0].battery_voltage, Some(12_000));
    let latest = dev.telemetry.latest().expect("frame was published");
    assert_eq!(latest, frames[0]);

    // a partial read publishes nothing new
    let more = dev.ingest(&mut dec, b"\r\nV\t1", 12);
    assert!(more.is_empty());
}

#[test]
fn runner_from_config_selects_the_mode() {
    let live = VeDirectMppt::from_config(
        "panel",
        &MpptConfig { port: Some("/dev/ttyUSB0".to_string()), loopback: None },
    );
    assert!(!live.loopback);
    assert_eq!(live.port, "/dev/ttyUSB0");
    assert_eq!(live.name, "panel");

    let idle = VeDirectMppt::from_config("bench", &MpptConfig { port: None, loopback: Some(true) });
    assert!(idle.loopback);
    assert_eq!(idle.name, "bench");
}

#[test]
fn broadcast_routes_by_channel() {
    let mut b = Broadcast::new();
    let r1 = ReceiverIdentity(1);
    let r2 = ReceiverIdentity(2);
    b.join::<MpptFrame>(r1);
    b.join::<MpptFrame>(r2);
    b.join::<DatetimeTick>(r2);

    let f = MpptFrame::default();
    assert_eq!(b.send(&f).as_slice(), &[r1, r2]);
    assert_eq!(b.send(&DatetimeTick(0)).as_slice(), &[r2]);

    b.leave::<MpptFrame>(r1);
    assert_eq!(b.send(&f).as_slice(), &[r2]);
    b.leave::<MpptFrame>(r2);
    assert!(b.send(&f).is_empty());
    // the datetime channel was untouched
    assert_eq!(b.send(&DatetimeTick(0)).as_slice(), &[r2]);

    assert!(matches!(<MpptFrame as BroadcastMessage>::channel(), Channel::Solar));
    assert!(matches!(<DatetimeTick as BroadcastMessage>::channel(), Channel::Datetime));
}

#[test]
fn heartbeat_drops_silent_clients() {
    let s = UISocket::new(7, 1_000);
    assert!(matches!(s.heartbeat(1_000), HeartbeatAction::Ping));
    assert!(matches!(s.heartbeat(21_000), HeartbeatAction::Ping));
    assert!(matches!(s.heartbeat(21_001), HeartbeatAction::Disconnect));
    // a clock running backwards is not a timeout
    assert!(matches!(s.heartbeat(0), HeartbeatAction::Ping));
}

#[test]
fn socket_messages_are_answered() {
    let mut s = UISocket::new(7, 0);
    match s.handle(UiMessage::Ping(b"hi".to_vec()), 50) {
        UiAction::Pong(p) => assert_eq!(p, b"hi".to_vec()),
        _ => panic!("a ping is answered with a pong"),
    }
    assert_eq!(s.last_heartbeat, 50);
    assert!(matches!(s.handle(UiMessage::Pong, 60), UiAction::Pong(_)));
    assert_eq!(s.last_heartbeat, 60);
    match s.handle(UiMessage::Text(b"t".to_vec()), 70) {
        UiAction::Text(t) => assert_eq!(t, b"t".to_vec()),
        _ => panic!("text frames are echoed"),
    }
    assert_eq!(s.last_heartbeat, 60);
    assert!(matches!(s.handle(UiMessage::Close, 80), UiAction::CloseAndStop));
    assert!(matches!(s.handle(UiMessage::Other, 90), UiAction::Stop));
}

#[test]
fn flow_scaffolding_carries_the_flow() {
    explore_flow::example();
    let f = habctl::flow::Flow::new().to(habctl::flow::flow::FlowStage {});
    let out = f.clone();
    assert!(out == f);
}
