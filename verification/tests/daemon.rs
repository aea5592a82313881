use vcp_daemon::daemon::{
    admit_packet, control_route, on_control_message, on_datagram_message, ControlAction,
    ControlRoute, DatagramAction, VcpMessage,
};
use vcp_daemon::jitter::JitterBuffer;

fn strings(v: &[&str]) -> Vec<String> {
    v.iter().map(|s| s.to_string()).collect()
}

#[test]
fn call_starts_client_and_becomes_pending() {
    let args = strings(&["10.0.0.2", "7000", "audio/opus", "alice"]);
    let (pending, act) = on_datagram_message(&"CALL".to_string(), &args, 42u32, None);
    assert_eq!(pending, Some(42));
    match act {
        DatagramAction::StartCall { ip, port, mimetype, username, notice } => {
            assert_eq!(ip, "10.0.0.2");
            assert_eq!(port, "7000");
            assert_eq!(mimetype, "audio/opus");
            assert_eq!(username, "alice");
            assert_eq!(
                notice,
                "Incoming Call from 10.0.0.2 port 7000 with mimetype audio/opus and username alice"
            );
        }
        _ => panic!("expected StartCall"),
    }
}

#[test]
fn accept_opens_the_pending_connection() {
    let args = strings(&["a", "b", "c", "d"]);
    let (pending, act) = on_datagram_message(&"ACCEPTCALL".to_string(), &args, 1u32, Some(9u32));
    assert_eq!(pending, None);
    assert!(matches!(act, DatagramAction::OpenConnection { peer: 9 }));
    let (pending, act) = on_datagram_message(&"ACCEPTCALL".to_string(), &args, 1u32, None);
    assert_eq!(pending, None);
    assert!(matches!(act, DatagramAction::NoPendingCall));
}

#[test]
fn packet_and_unknown_keep_pending() {
    let (pending, act) = on_datagram_message(&"PACKET".to_string(), &vec![], 1u32, Some(3u32));
    assert_eq!(pending, Some(3));
    assert!(matches!(act, DatagramAction::StorePacket));
    let (pending, act) = on_datagram_message(&"HELLO".to_string(), &vec![], 1u32, Some(3u32));
    assert_eq!(pending, Some(3));
    assert!(matches!(act, DatagramAction::Invalid));
}

#[test]
fn admit_packet_stores_and_measures_latency() {
    let mut b = JitterBuffer::new();
    assert_eq!(admit_packet(&mut b, 4, &vec![1, 2], 1000, 1250), Some(250));
    assert_eq!(b.pop_first(), Some((4, vec![1, 2])));
    // the latency is cut to 16 bits
    assert_eq!(admit_packet(&mut b, 5, &vec![], 0, 70000), Some(70000i64 as i16));
}

#[test]
fn control_accept_builds_response() {
    let args = strings(&["10.0.0.3", "7000", "video/vp8", "bob"]);
    match on_control_message(&"ACCEPTCALL".to_string(), &args) {
        ControlAction::Accept { ip, port, mimetype, username, response, target } => {
            assert_eq!(ip, "10.0.0.3");
            assert_eq!(port, "7000");
            assert_eq!(mimetype, "video/vp8");
            assert_eq!(username, "bob");
            assert_eq!(response, "ACCEPTCALL 10.0.0.3 7000 video/vp8 \"bob\"\r\n");
            assert_eq!(target, "10.0.0.3:7000");
        }
        _ => panic!("expected Accept"),
    }
}

#[test]
fn control_decline_and_unknown() {
    let args = strings(&["1", "2", "3", "4"]);
    match on_control_message(&"DECLINECALL".to_string(), &args) {
        ControlAction::Decline { ip, port, mimetype, username } => {
            assert_eq!((ip.as_str(), port.as_str(), mimetype.as_str(), username.as_str()), ("1", "2", "3", "4"));
        }
        _ => panic!("expected Decline"),
    }
    assert!(matches!(on_control_message(&"CALL".to_string(), &args), ControlAction::Invalid));
}

#[test]
fn control_route_feeds_answers_then_forwards() {
    assert_eq!(control_route(false, false), ControlRoute::Feed);
    assert_eq!(control_route(true, false), ControlRoute::Answer);
    assert_eq!(control_route(true, true), ControlRoute::Forward);
    assert_eq!(control_route(false, true), ControlRoute::Forward);
}

#[test]
fn vcp_message_carries_its_fields() {
    let m = VcpMessage::Packet { packet_nr: 1, timestamp: -2, data_len: 3, data: vec![4], raw_bytes: vec![5] };
    assert!(format!("{:?}", m).contains("packet_nr: 1"));
}
