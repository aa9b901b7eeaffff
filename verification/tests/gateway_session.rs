use dronelink::envelope::decode;
use dronelink::gateway::{Gateway, GatewayAction, GatewayEvent, GatewayPhase};
use dronelink::link::LinkCore;
use dronelink::telemetry::{parse_record, serialize_record, VehicleState};

fn opens_session(acts: &[GatewayAction]) -> bool {
    acts.iter().any(|a| matches!(a, GatewayAction::OpenSession))
}

#[test]
fn gateway_accepts_only_from_listening() {
    let mut gw = Gateway::new();
    assert_eq!(gw.phase, GatewayPhase::Listening);

    let acts = gw.step(GatewayEvent::SessionRequested);
    assert!(opens_session(&acts));
    assert_eq!(gw.phase, GatewayPhase::Active);
    assert!(gw.serial_owned);

    // A second request while the session is wired changes nothing: the
    // serial channel is never wired to two sessions.
    let acts = gw.step(GatewayEvent::SessionRequested);
    assert!(acts.is_empty());
    assert_eq!(gw.phase, GatewayPhase::Active);

    // Session failure raises the stop signal and starts draining.
    let acts = gw.step(GatewayEvent::NetClosed);
    assert_eq!(acts.len(), 1);
    assert!(matches!(acts[0], GatewayAction::SignalStop));
    assert_eq!(gw.phase, GatewayPhase::Draining);
    assert!(gw.stop_signal);
    assert!(gw.serial_owned);

    // Still no new session while draining: acceptance waits for teardown.
    let acts = gw.step(GatewayEvent::SessionRequested);
    assert!(acts.is_empty());
    assert_eq!(gw.phase, GatewayPhase::Draining);

    // Teardown completes: the serial channel is released, listening resumes.
    let acts = gw.step(GatewayEvent::PumpsJoined);
    assert_eq!(acts.len(), 1);
    assert!(matches!(acts[0], GatewayAction::ReleaseSerial));
    assert_eq!(gw.phase, GatewayPhase::Listening);
    assert!(!gw.serial_owned);
    assert!(!gw.stop_signal);

    // And only now can the next session be wired.
    let acts = gw.step(GatewayEvent::SessionRequested);
    assert!(opens_session(&acts));
    assert_eq!(gw.phase, GatewayPhase::Active);
}

#[test]
fn failed_open_returns_to_listening() {
    let mut gw = Gateway::new();
    gw.step(GatewayEvent::SessionRequested);
    let acts = gw.step(GatewayEvent::SessionOpenFailed);
    assert!(acts.is_empty());
    assert_eq!(gw.phase, GatewayPhase::Listening);
    assert!(!gw.serial_owned);
}

#[test]
fn uplink_envelopes_each_trimmed_line() {
    let mut gw = Gateway::new();
    gw.step(GatewayEvent::SessionRequested);
    let st = VehicleState::zeroed();
    let line = format!("{}\n", serialize_record(&st));
    let acts = gw.step(GatewayEvent::SerialLine(line));
    assert_eq!(acts.len(), 1);
    match &acts[0] {
        GatewayAction::SendEnvelope(wire) => {
            let env = decode(wire).unwrap();
            assert_eq!(env.tags, vec![1, 2, 3, 4, 5]);
            assert_eq!(parse_record(&env.payload), Some(st));
        },
        other => panic!("expected an envelope send, got {:?}", other),
    }
}

#[test]
fn downlink_writes_network_text_verbatim() {
    let mut gw = Gateway::new();
    gw.step(GatewayEvent::SessionRequested);
    let acts = gw.step(GatewayEvent::NetText(String::from("rc->1500,1500,1000,1500\n")));
    assert_eq!(acts.len(), 1);
    match &acts[0] {
        GatewayAction::WriteSerial(bytes) => {
            assert_eq!(bytes, "rc->1500,1500,1000,1500\n")
        },
        other => panic!("expected a serial write, got {:?}", other),
    }
}

#[test]
fn serial_eof_also_tears_the_session_down() {
    let mut gw = Gateway::new();
    gw.step(GatewayEvent::SessionRequested);
    let acts = gw.step(GatewayEvent::SerialClosed);
    assert!(matches!(acts[0], GatewayAction::SignalStop));
    assert_eq!(gw.phase, GatewayPhase::Draining);
}

#[test]
fn idle_gateway_ignores_stray_events() {
    let mut gw = Gateway::new();
    assert!(gw.step(GatewayEvent::SerialLine(String::from("x"))).is_empty());
    assert!(gw.step(GatewayEvent::NetText(String::from("y"))).is_empty());
    assert!(gw.step(GatewayEvent::NetClosed).is_empty());
    assert!(gw.step(GatewayEvent::PumpsJoined).is_empty());
    assert_eq!(gw.phase, GatewayPhase::Listening);
    assert!(!gw.serial_owned);
}

#[test]
fn end_to_end_line_reaches_operator_snapshot() {
    // The whole story of one telemetry line and one chat line, from the
    // serial port to the operator's read.
    let mut gw = Gateway::new();
    gw.step(GatewayEvent::SessionRequested);
    let mut core = LinkCore::new();

    let mut st = VehicleState::zeroed();
    st.yaw = 90;
    st.rc_throttle = 1650;
    let acts = gw.step(GatewayEvent::SerialLine(format!("{}\n", serialize_record(&st))));
    let wire = match &acts[0] {
        GatewayAction::SendEnvelope(w) => w.clone(),
        other => panic!("expected an envelope send, got {:?}", other),
    };
    core.handle_wire_message(&wire, 40);
    let (snap, tags, status) = core.read_snapshot();
    assert_eq!(snap, st);
    assert_eq!(tags, vec![1, 2, 3, 4, 5]);
    assert_eq!(status.last_receipt_ms, 40);

    let acts = gw.step(GatewayEvent::SerialLine(String::from("hello\n")));
    let wire = match &acts[0] {
        GatewayAction::SendEnvelope(w) => w.clone(),
        other => panic!("expected an envelope send, got {:?}", other),
    };
    core.handle_wire_message(&wire, 90);
    let (snap, _, status) = core.read_snapshot();
    assert_eq!(snap, st); // only the receipt instant moved
    assert_eq!(status.last_receipt_ms, 90);
    let msg = core.try_dequeue_inbound_chat().unwrap();
    assert_eq!(msg.text, "hello");
    assert!(msg.from_vehicle);
}
