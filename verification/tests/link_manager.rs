use dronelink::classify::{classify_payload, Classified};
use dronelink::envelope::encode;
use dronelink::link::{
    derived_connected, LinkAction, LinkCore, LinkEvent, LinkPhase, RECONNECT_BACKOFF_MS,
};
use dronelink::telemetry::{serialize_record, VehicleState};

fn sample_state() -> VehicleState {
    let mut st = VehicleState::zeroed();
    st.elapsed_time_bits = 0x41400000;
    st.yaw = -45;
    st.rc_throttle = 1700;
    st.front_left = 12;
    st.kp_r_bits = 0x3F000000;
    st
}

#[test]
fn classifier_routes_telemetry() {
    let st = sample_state();
    match classify_payload(&serialize_record(&st)) {
        Classified::Telemetry(got) => assert_eq!(got, st),
        other => panic!("expected telemetry, got {:?}", other),
    }
}

#[test]
fn classifier_routes_separator_free_text_to_chat() {
    match classify_payload("hello") {
        Classified::Chat(s) => assert_eq!(s, "hello"),
        other => panic!("expected chat, got {:?}", other),
    }
    match classify_payload("") {
        Classified::Chat(s) => assert_eq!(s, ""),
        other => panic!("expected chat, got {:?}", other),
    }
}

#[test]
fn classifier_drops_separator_text_that_is_no_record() {
    assert!(matches!(classify_payload("1,2,3"), Classified::Unrecognized));
    assert!(matches!(classify_payload("hello, world"), Classified::Unrecognized));
}

#[test]
fn reconnect_counts_attempts_with_fixed_backoff() {
    let mut core = LinkCore::new();
    let n = 4u32;
    let mut attempts_opened = 0;
    // First poll opens the first attempt.
    let acts = core.step_link(LinkEvent::PollConnect);
    assert_eq!(acts, vec![LinkAction::Connect]);
    attempts_opened += 1;
    for k in 1..=n {
        let acts = core.step_link(LinkEvent::ConnectFailed);
        assert_eq!(acts, vec![LinkAction::Backoff(RECONNECT_BACKOFF_MS)]);
        assert_eq!(core.control.status.connection_attempts, k);
        assert!(!core.control.status.is_connected);
        let acts = core.step_link(LinkEvent::PollConnect);
        assert_eq!(acts, vec![LinkAction::Connect]);
        attempts_opened += 1;
    }
    // n failures, n + 1 attempts opened, counter reads n at the last one.
    assert_eq!(attempts_opened, n + 1);
    assert_eq!(core.control.status.connection_attempts, n);
    assert_eq!(core.control.phase, LinkPhase::Connecting);
    // Success resets the counter and marks the link up.
    core.step_link(LinkEvent::ConnectSucceeded);
    assert_eq!(core.control.status.connection_attempts, 0);
    assert!(core.control.status.is_connected);
    assert_eq!(core.control.phase, LinkPhase::Connected);
}

#[test]
fn read_failure_downs_the_link() {
    let mut core = LinkCore::new();
    core.step_link(LinkEvent::PollConnect);
    core.step_link(LinkEvent::ConnectSucceeded);
    let acts = core.step_link(LinkEvent::ReadFailed);
    assert_eq!(acts, vec![LinkAction::Backoff(RECONNECT_BACKOFF_MS)]);
    assert_eq!(core.control.phase, LinkPhase::Disconnected);
    assert!(!core.control.status.is_connected);
    assert_eq!(core.control.status.connection_attempts, 1);
}

#[test]
fn telemetry_frame_replaces_snapshot_wholesale() {
    let mut core = LinkCore::new();
    let st = sample_state();
    let tags: Vec<u32> = vec![1, 2, 3];
    let wire = encode(&tags, &serialize_record(&st));
    core.handle_wire_message(&wire, 250);
    let (snap, got_tags, status) = core.read_snapshot();
    assert_eq!(snap, st);
    assert_eq!(got_tags, tags);
    assert_eq!(status.last_receipt_ms, 250);
    assert!(core.try_dequeue_inbound_chat().is_none());
}

#[test]
fn chat_frame_queues_without_touching_snapshot() {
    let mut core = LinkCore::new();
    let st = sample_state();
    core.handle_wire_message(&encode(&vec![1, 2, 3], &serialize_record(&st)), 100);
    core.handle_wire_message(&encode(&Vec::new(), "hello"), 180);
    let (snap, tags, status) = core.read_snapshot();
    assert_eq!(snap, st); // snapshot untouched by the chat line
    assert_eq!(tags, vec![1, 2, 3]);
    assert_eq!(status.last_receipt_ms, 180); // receipt recorded regardless
    let msg = core.try_dequeue_inbound_chat().unwrap();
    assert_eq!(msg.text, "hello");
    assert!(msg.from_vehicle);
    assert_eq!(msg.timestamp_ms, 180);
    assert!(core.try_dequeue_inbound_chat().is_none());
}

#[test]
fn unrecognized_frames_only_mark_receipt() {
    let mut core = LinkCore::new();
    let st = sample_state();
    core.handle_wire_message(&encode(&Vec::new(), &serialize_record(&st)), 10);
    core.handle_wire_message(&encode(&Vec::new(), "a,b"), 20); // separator text, no record
    let (snap, _, status) = core.read_snapshot();
    assert_eq!(snap, st);
    assert_eq!(status.last_receipt_ms, 20);
    assert!(core.try_dequeue_inbound_chat().is_none());
}

#[test]
fn malformed_frames_are_skipped_entirely() {
    let mut core = LinkCore::new();
    let st = sample_state();
    core.handle_wire_message(&encode(&Vec::new(), &serialize_record(&st)), 10);
    core.handle_wire_message("no divider here", 30); // not an envelope
    let (snap, _, status) = core.read_snapshot();
    assert_eq!(snap, st);
    // A frame that is no envelope is logged and skipped: it does not even
    // count as a receipt, so a peer sending only garbage goes stale.
    assert_eq!(status.last_receipt_ms, 10);
    assert!(core.try_dequeue_inbound_chat().is_none());
}

#[test]
fn inbound_chat_is_first_in_first_out() {
    let mut core = LinkCore::new();
    core.handle_wire_message(&encode(&Vec::new(), "first"), 1);
    core.handle_wire_message(&encode(&Vec::new(), "second"), 2);
    core.handle_wire_message(&encode(&Vec::new(), "third"), 3);
    assert_eq!(core.try_dequeue_inbound_chat().unwrap().text, "first");
    assert_eq!(core.try_dequeue_inbound_chat().unwrap().text, "second");
    assert_eq!(core.try_dequeue_inbound_chat().unwrap().text, "third");
    assert!(core.try_dequeue_inbound_chat().is_none());
}

#[test]
fn outbound_waits_for_a_live_link() {
    let mut core = LinkCore::new();
    core.enqueue_outbound(String::from("first"));
    core.enqueue_outbound(String::from("second"));
    // Link down: nothing may leave the queue.
    assert!(core.take_outbound().is_none());
    core.step_link(LinkEvent::PollConnect);
    assert!(core.take_outbound().is_none());
    core.step_link(LinkEvent::ConnectSucceeded);
    // Link up: oldest first.
    assert_eq!(core.take_outbound().unwrap(), "first");
    assert_eq!(core.take_outbound().unwrap(), "second");
    assert!(core.take_outbound().is_none());
}

#[test]
fn failed_send_requeues_at_the_front() {
    let mut core = LinkCore::new();
    core.step_link(LinkEvent::PollConnect);
    core.step_link(LinkEvent::ConnectSucceeded);
    core.enqueue_outbound(String::from("first"));
    core.enqueue_outbound(String::from("second"));
    let line = core.take_outbound().unwrap();
    assert_eq!(line, "first");
    let acts = core.on_send_failed(line);
    assert_eq!(acts, vec![LinkAction::Backoff(RECONNECT_BACKOFF_MS)]);
    assert_eq!(core.control.phase, LinkPhase::Disconnected);
    // Nothing is lost, and the order is kept for the next connection.
    core.step_link(LinkEvent::PollConnect);
    core.step_link(LinkEvent::ConnectSucceeded);
    assert_eq!(core.take_outbound().unwrap(), "first");
    assert_eq!(core.take_outbound().unwrap(), "second");
}

#[test]
fn connectivity_is_derived_from_receipt_recency() {
    // 400 ms since the last receipt: connected.
    assert!(derived_connected(1000, 600));
    // Exactly the threshold: no longer connected.
    assert!(!derived_connected(1100, 600));
    assert!(!derived_connected(5000, 600));
    // A clock that has not advanced reads as fresh.
    assert!(derived_connected(500, 600));
}

#[test]
fn stalled_open_connection_reads_disconnected() {
    let mut core = LinkCore::new();
    core.step_link(LinkEvent::PollConnect);
    core.step_link(LinkEvent::ConnectSucceeded);
    core.handle_wire_message(&encode(&Vec::new(), "hello"), 1000);
    let (_, _, status) = core.read_snapshot();
    // The manager still believes the connection is up...
    assert!(status.is_connected);
    // ...but with no receipt for over the threshold, presentation derives
    // a disconnected indicator from the status alone.
    assert!(derived_connected(1200, status.last_receipt_ms));
    assert!(!derived_connected(1501, status.last_receipt_ms));
}
