use vcp_daemon::receiver::{VcpReceiver, VcpReceptionState};

fn packet_bytes(name: &[u8], nr: u64, ts: u64, data: &[u8]) -> Vec<u8> {
    let mut m = name.to_vec();
    m.push(b'/');
    m.extend_from_slice(&nr.to_be_bytes());
    m.extend_from_slice(&ts.to_be_bytes());
    m.extend_from_slice(&(data.len() as u16).to_be_bytes());
    m.extend_from_slice(data);
    m
}

#[test]
fn text_message_is_framed() {
    let r = VcpReceiver::new(b"CALL 10.0.0.1 7000 audio/opus alice\n".to_vec());
    assert_eq!(*r.get_state(), VcpReceptionState::Done);
    assert_eq!(r.get_action().as_str(), "CALL");
    assert_eq!(
        r.get_args(),
        &vec![
            "10.0.0.1".to_string(),
            "7000".to_string(),
            "audio/opus".to_string(),
            "alice".to_string()
        ]
    );
    assert_eq!(r.get_result(), &b"CALL 10.0.0.1 7000 audio/opus alice".to_vec());
}

#[test]
fn carriage_return_ends_a_message() {
    let r = VcpReceiver::new(b"DECLINECALL a b\r\n".to_vec());
    assert_eq!(*r.get_state(), VcpReceptionState::Done);
    assert_eq!(r.get_args(), &vec!["a".to_string(), "b".to_string()]);
}

#[test]
fn incomplete_message_waits_for_more() {
    let mut r = VcpReceiver::new(b"CALL a".to_vec());
    assert_eq!(*r.get_state(), VcpReceptionState::UnQuotedArg);
    assert_eq!(r.get_action().as_str(), "CALL");
    assert!(r.get_args().is_empty());
    assert_eq!(*r.feed(b" b\n".to_vec()), VcpReceptionState::Done);
    assert_eq!(r.get_args(), &vec!["a".to_string(), "b".to_string()]);
}

#[test]
fn feeding_byte_by_byte_matches_one_chunk() {
    let msg = b"ACCEPTCALL 1.2.3.4 99 video \"bob smith\"\n".to_vec();
    let whole = VcpReceiver::new(msg.clone());
    let mut parts = VcpReceiver::new(vec![]);
    for b in msg {
        parts.feed(vec![b]);
    }
    assert_eq!(*parts.get_state(), *whole.get_state());
    assert_eq!(parts.get_args(), whole.get_args());
    assert_eq!(parts.get_result(), whole.get_result());
    assert_eq!(parts.get_action(), whole.get_action());
}

#[test]
fn quoted_argument_keeps_its_quotes_and_spaces() {
    let r = VcpReceiver::new(b"ACCEPTCALL 1.2.3.4 99 video \"bob smith\"\n".to_vec());
    assert_eq!(*r.get_state(), VcpReceptionState::Done);
    assert_eq!(
        r.get_args(),
        &vec![
            "1.2.3.4".to_string(),
            "99".to_string(),
            "video".to_string(),
            "\"bob smith\"".to_string()
        ]
    );
    // the space after a quoted argument yields an empty argument
    let r2 = VcpReceiver::new(b"X \"q\" z\n".to_vec());
    assert_eq!(
        r2.get_args(),
        &vec!["\"q\"".to_string(), "".to_string(), "z".to_string()]
    );
    assert_eq!(r2.get_result(), &b"X \"q\" z".to_vec());
}

#[test]
fn leading_newline_is_skipped() {
    let r = VcpReceiver::new(b"\nPING x\n".to_vec());
    assert_eq!(r.get_action().as_str(), "PING");
    assert_eq!(r.get_args(), &vec!["x".to_string()]);
}

#[test]
fn invalid_utf8_action_is_dropped() {
    let r = VcpReceiver::new(vec![0xff, 0xfe, b' ', b'O', b'K', b' ', b'a', b'\n']);
    assert_eq!(*r.get_state(), VcpReceptionState::Done);
    assert_eq!(r.get_action().as_str(), "OK");
    assert_eq!(r.get_args(), &vec!["a".to_string()]);
    assert_eq!(r.get_result(), &b"OK a".to_vec());
}

#[test]
fn invalid_utf8_argument_is_replaced() {
    let r = VcpReceiver::new(vec![b'A', b' ', b'x', 0xff, b'y', b'\n']);
    assert_eq!(r.get_args(), &vec!["x\u{fffd}y".to_string()]);
}

#[test]
fn packet_message_is_decoded() {
    let msg = packet_bytes(b"MEDIA", 0x0102030405060708, 0x1122334455667788, &[9, 8, 7]);
    let mut r = VcpReceiver::new(msg.clone());
    assert_eq!(*r.get_state(), VcpReceptionState::Done);
    assert_eq!(r.get_action().as_str(), "PACKET");
    assert_eq!(r.get_packet_nr(), 0x0102030405060708);
    assert_eq!(r.get_packet_ts(), 0x1122334455667788);
    assert_eq!(r.get_packet_len(), 3);
    assert_eq!(r.get_packet_data(), &vec![9, 8, 7]);
    assert_eq!(r.get_result(), &msg);
    assert_eq!(r.stream_packet_data(), vec![9, 8, 7]);
    assert!(r.get_packet_data().is_empty());
    assert_eq!(r.get_result(), &msg);
}

#[test]
fn empty_packet_is_done_after_its_length() {
    let msg = packet_bytes(b"", 5, 6, &[]);
    let r = VcpReceiver::new(msg.clone());
    assert_eq!(*r.get_state(), VcpReceptionState::Done);
    assert_eq!(r.get_packet_len(), 0);
    assert_eq!(r.get_packet_nr(), 5);
    assert_eq!(r.get_packet_ts(), 6);
    assert!(r.get_packet_data().is_empty());
    assert_eq!(r.get_result(), &msg);
}

#[test]
fn packet_fields_arrive_in_pieces() {
    let msg = packet_bytes(b"M", 7, 8, &[1, 2, 3, 4]);
    let mut r = VcpReceiver::new(msg[..5].to_vec());
    assert_eq!(*r.get_state(), VcpReceptionState::PacketNr);
    assert_eq!(*r.feed(msg[5..12].to_vec()), VcpReceptionState::PacketTS);
    assert_eq!(*r.feed(msg[12..19].to_vec()), VcpReceptionState::PacketLen);
    assert_eq!(*r.feed(msg[19..22].to_vec()), VcpReceptionState::PacketData);
    assert_eq!(r.get_packet_data(), &vec![1, 2]);
    assert_eq!(*r.feed(msg[22..].to_vec()), VcpReceptionState::Done);
    assert_eq!(r.get_packet_data(), &vec![1, 2, 3, 4]);
    assert_eq!(r.get_result(), &msg);
}

#[test]
fn done_receiver_only_buffers() {
    let mut r = VcpReceiver::new(b"A b\n".to_vec());
    assert_eq!(*r.feed(b"C d\n".to_vec()), VcpReceptionState::Done);
    assert_eq!(r.get_args(), &vec!["b".to_string()]);
    assert_eq!(r.get_result(), &b"A b".to_vec());
}

#[test]
fn reset_reads_the_next_message() {
    let mut r = VcpReceiver::new(b"A b\r\nC d e\r\n".to_vec());
    assert_eq!(r.get_action().as_str(), "A");
    r.reset();
    assert_eq!(*r.get_state(), VcpReceptionState::Action);
    assert!(r.get_result().is_empty());
    assert_eq!(*r.feed(vec![]), VcpReceptionState::Done);
    assert_eq!(r.get_action().as_str(), "C");
    assert_eq!(r.get_args(), &vec!["d".to_string(), "e".to_string()]);
    assert_eq!(r.get_result(), &b"C d e".to_vec());
}

#[test]
fn reset_keeps_packet_counters_clear() {
    let msg = packet_bytes(b"M", 1, 2, &[3]);
    let mut r = VcpReceiver::new(msg);
    r.reset();
    assert_eq!(r.get_packet_nr(), 0);
    assert_eq!(r.get_packet_ts(), 0);
    assert_eq!(r.get_packet_len(), 0);
    assert_eq!(r.get_action().as_str(), "");
    assert!(r.get_args().is_empty());
    assert_eq!(*r.feed(vec![]), VcpReceptionState::Action);
}

#[test]
fn consume_reads_one_byte() {
    let mut r = VcpReceiver::new(b"A b\nXY".to_vec());
    assert_eq!(*r.get_state(), VcpReceptionState::Done);
    // a done receiver passes over the byte it consumes
    r.consume();
    assert_eq!(*r.get_state(), VcpReceptionState::Done);
    r.reset();
    assert_eq!(*r.feed(b" z\n".to_vec()), VcpReceptionState::Done);
    assert_eq!(r.get_action().as_str(), "Y");

    let mut s = VcpReceiver::new(b"A b\nQ".to_vec());
    s.reset();
    s.consume();
    assert_eq!(*s.get_state(), VcpReceptionState::Action);
    assert_eq!(*s.feed(b" w\n".to_vec()), VcpReceptionState::Done);
    assert_eq!(s.get_action().as_str(), "Q");
}

#[test]
fn reset_then_feed_matches_fresh_receiver() {
    let mut r = VcpReceiver::new(b"A b\nC d".to_vec());
    r.reset();
    r.feed(b" e\n".to_vec());
    let fresh = VcpReceiver::new(b"C d e\n".to_vec());
    assert_eq!(*r.get_state(), *fresh.get_state());
    assert_eq!(r.get_action(), fresh.get_action());
    assert_eq!(r.get_args(), fresh.get_args());
    assert_eq!(r.get_result(), fresh.get_result());
}

#[test]
fn packet_data_streams_while_it_arrives() {
    let mut r = VcpReceiver::new(vec![
        b'/', 0, 0, 0, 0, 0, 0, 0, 1, 0, 0, 0, 0, 0, 0, 0, 2, 0, 3, 0xAA, 0xBB,
    ]);
    assert_eq!(*r.get_state(), VcpReceptionState::PacketData);
    assert_eq!(r.stream_packet_data(), vec![0xAA, 0xBB]);
    assert!(r.get_packet_data().is_empty());
    assert_eq!(*r.feed(vec![0xCC]), VcpReceptionState::Done);
    assert_eq!(r.stream_packet_data(), vec![0xCC]);
    assert_eq!(
        r.get_result(),
        &vec![b'/', 0, 0, 0, 0, 0, 0, 0, 1, 0, 0, 0, 0, 0, 0, 0, 2, 0, 3, 0xAA, 0xBB, 0xCC]
    );
}

#[test]
fn leading_newlines_do_not_change_the_message() {
    let m = b"CALL a b\n".to_vec();
    let plain = VcpReceiver::new(m.clone());
    for k in 0..4 {
        let mut prefixed = vec![b'\n'; k];
        prefixed.extend_from_slice(&m);
        let r = VcpReceiver::new(prefixed);
        assert_eq!(*r.get_state(), *plain.get_state());
        assert_eq!(r.get_action(), plain.get_action());
        assert_eq!(r.get_args(), plain.get_args());
        assert_eq!(r.get_result(), plain.get_result());
    }
}
