use websocket::dataframe::{DataFrame, Opcode};
use websocket::mask::{gen_mask, mask_data};
use websocket::message::{message_from_data, CloseData, Message};
use websocket::receiver::Receiver;
use websocket::result::WebSocketError;
use websocket::sender::Sender;
use websocket::util::bytes_to_string;

#[test]
fn masking_twice_gives_back_the_payload() {
    let key = [0x37, 0xFA, 0x21, 0x3D];
    let data = b"Hello, masking!".to_vec();
    let once = mask_data(key, &data);
    assert_ne!(once, data);
    assert_eq!(once[0], b'H' ^ 0x37);
    assert_eq!(once[4], b'o' ^ 0x37);
    assert_eq!(mask_data(key, &once), data);
}

#[test]
fn simple_text_round_trip() {
    let key = [0x37, 0xFA, 0x21, 0x3D];
    let client = Sender::new(true);
    let mut out = Vec::new();
    client.send_message_with_key(&mut out, &Message::Text("Hello".to_string()), key).unwrap();
    let expected = vec![
        0x81, 0x85, 0x37, 0xFA, 0x21, 0x3D,
        0x48 ^ 0x37, 0x65 ^ 0xFA, 0x6C ^ 0x21, 0x6C ^ 0x3D, 0x6F ^ 0x37,
    ];
    assert_eq!(out, expected);

    let mut server = Receiver::new(true);
    server.push_bytes(&out);
    assert_eq!(server.recv_message().unwrap(), Message::Text("Hello".to_string()));

    let mut echo = Vec::new();
    Sender::new(false).send_message(&mut echo, &Message::Text("Hello".to_string())).unwrap();
    assert_eq!(echo, vec![0x81, 0x05, 0x48, 0x65, 0x6C, 0x6C, 0x6F]);

    let mut client_rx = Receiver::new(false);
    client_rx.push_bytes(&echo);
    assert_eq!(client_rx.recv_message().unwrap(), Message::Text("Hello".to_string()));
}

#[test]
fn client_frames_carry_a_mask_and_server_frames_none() {
    let msg = Message::Binary(vec![1, 2, 3]);
    let mut c = Vec::new();
    Sender::new(true).send_message(&mut c, &msg).unwrap();
    assert_eq!(c[1] & 0x80, 0x80);
    assert_eq!(c.len(), 2 + 4 + 3);
    let mut s = Vec::new();
    Sender::new(false).send_message(&mut s, &msg).unwrap();
    assert_eq!(s[1] & 0x80, 0);
    assert_eq!(s, vec![0x82, 0x03, 1, 2, 3]);
    let _ = gen_mask();
}

#[test]
fn fragmented_binary() {
    let mut rx = Receiver::new(false);
    rx.push_bytes(&[0x02, 0x03, 0x01, 0x02, 0x03]);
    rx.push_bytes(&[0x80, 0x02, 0x04, 0x05]);
    assert_eq!(rx.recv_message().unwrap(), Message::Binary(vec![1, 2, 3, 4, 5]));
}

#[test]
fn fragmented_message_with_text_opcode() {
    // A first frame with opcode 1 starts a text message.
    let mut rx = Receiver::new(false);
    rx.push_bytes(&[0x01, 0x03, 0x01, 0x02, 0x03]);
    rx.push_bytes(&[0x80, 0x02, 0x04, 0x05]);
    assert_eq!(rx.recv_message().unwrap(), Message::Text("\u{1}\u{2}\u{3}\u{4}\u{5}".to_string()));
}

#[test]
fn control_during_fragmentation() {
    let mut rx = Receiver::new(false);
    rx.push_bytes(&[0x02, 0x03, 0xAA, 0xBB, 0xCC]);
    rx.push_bytes(&[0x89, 0x04, 0x70, 0x69, 0x6E, 0x67]);
    rx.push_bytes(&[0x80, 0x02, 0xDD, 0xEE]);
    assert_eq!(rx.recv_message().unwrap(), Message::Ping(vec![0x70, 0x69, 0x6E, 0x67]));
    assert_eq!(rx.recv_message().unwrap(), Message::Binary(vec![0xAA, 0xBB, 0xCC, 0xDD, 0xEE]));
}

#[test]
fn control_during_fragmented_text() {
    // With opcode 1 the fragments form a text message, and these bytes are not UTF-8.
    let mut rx = Receiver::new(false);
    rx.push_bytes(&[0x01, 0x03, 0xAA, 0xBB, 0xCC]);
    rx.push_bytes(&[0x89, 0x04, 0x70, 0x69, 0x6E, 0x67]);
    rx.push_bytes(&[0x80, 0x02, 0xDD, 0xEE]);
    assert_eq!(rx.recv_message().unwrap(), Message::Ping(vec![0x70, 0x69, 0x6E, 0x67]));
    assert!(matches!(rx.recv_message(), Err(WebSocketError::ProtocolError(_))));
    assert_eq!(rx.close_code(), Some(1007));
}

#[test]
fn bad_utf8_text() {
    let mut rx = Receiver::new(false);
    rx.push_bytes(&[0x81, 0x02, 0xC0, 0xC1]);
    assert!(matches!(rx.recv_message(), Err(WebSocketError::ProtocolError(_))));
    assert_eq!(rx.close_code(), Some(1007));
    let close = Message::Close(Some(CloseData::new(rx.close_code().unwrap(), String::new())));
    let mut out = Vec::new();
    Sender::new(true).send_message_with_key(&mut out, &close, [0, 0, 0, 0]).unwrap();
    assert_eq!(out, vec![0x88, 0x82, 0, 0, 0, 0, 0x03, 0xEF]);
}

#[test]
fn oversized_control_frame() {
    let mut rx = Receiver::new(false);
    rx.push_bytes(&[0x89, 0x7E, 0x00, 0x7E]);
    assert!(matches!(rx.recv_message(), Err(WebSocketError::DataFrameError(_))));
    assert_eq!(rx.close_code(), Some(1002));
    assert_eq!(rx.buffered_len(), 4);
}

#[test]
fn incomplete_frames_wait_for_more_bytes() {
    let mut rx = Receiver::new(false);
    rx.push_bytes(&[0x82, 0x03, 0x01]);
    assert!(matches!(rx.recv_message(), Err(WebSocketError::NoDataAvailable)));
    assert_eq!(rx.close_code(), None);
    rx.push_bytes(&[0x02, 0x03]);
    assert_eq!(rx.recv_message().unwrap(), Message::Binary(vec![1, 2, 3]));
    assert_eq!(rx.buffered_len(), 0);
}

#[test]
fn unexpected_continuation_is_a_protocol_error() {
    let mut rx = Receiver::new(false);
    rx.push_bytes(&[0x80, 0x01, 0x00]);
    assert!(matches!(rx.recv_message(), Err(WebSocketError::ProtocolError(_))));
}

#[test]
fn new_data_frame_during_fragmentation_is_a_protocol_error() {
    let mut rx = Receiver::new(false);
    rx.push_bytes(&[0x01, 0x01, 0x00, 0x82, 0x01, 0x00]);
    assert!(matches!(rx.recv_message(), Err(WebSocketError::ProtocolError(_))));
}

#[test]
fn reserved_bits_are_a_protocol_error() {
    let mut rx = Receiver::new(false);
    rx.push_bytes(&[0xC2, 0x01, 0x00]);
    assert!(matches!(rx.recv_message(), Err(WebSocketError::ProtocolError(_))));
}

#[test]
fn mask_expectation_is_enforced() {
    let mut server = Receiver::new(true);
    server.push_bytes(&[0x82, 0x01, 0x00]);
    assert!(matches!(server.recv_dataframe(), Err(WebSocketError::DataFrameError(_))));
    let mut client = Receiver::new(false);
    client.push_bytes(&[0x82, 0x81, 1, 2, 3, 4, 0x00]);
    assert!(matches!(client.recv_dataframe(), Err(WebSocketError::DataFrameError(_))));
}

#[test]
fn frame_round_trip_with_mask() {
    let frame = DataFrame::new(false, Opcode::Text, b"abc".to_vec());
    let mut out = Vec::new();
    frame.write_to(&mut out, Some([1, 2, 3, 4])).unwrap();
    assert_eq!(out, vec![0x01, 0x83, 1, 2, 3, 4, b'a' ^ 1, b'b' ^ 2, b'c' ^ 3]);
    let (back, n) = DataFrame::read_dataframe(&out, true).unwrap();
    assert_eq!(back, frame);
    assert_eq!(n, out.len());
}

#[test]
fn control_frames_longer_than_125_bytes_are_not_sent() {
    let mut out = Vec::new();
    let r = Sender::new(false).send_message(&mut out, &Message::Ping(vec![0; 126]));
    assert!(matches!(r, Err(WebSocketError::DataFrameError(_))));
    assert!(out.is_empty());
}

#[test]
fn messages_round_trip_through_frames() {
    let messages = vec![
        Message::Text("héllo".to_string()),
        Message::Binary(vec![]),
        Message::Binary(vec![0, 255, 7]),
        Message::Close(None),
        Message::Close(Some(CloseData::new(1000, "bye".to_string()))),
        Message::Ping(b"p".to_vec()),
        Message::Pong(vec![]),
    ];
    for m in messages {
        let frames = m.to_dataframes();
        assert_eq!(frames.len(), 1);
        assert!(frames[0].finished);
        assert_eq!(Message::from_dataframes(frames).unwrap(), m);
    }
}

#[test]
fn from_dataframes_rejects_bad_sequences() {
    assert!(matches!(Message::from_dataframes(vec![]), Err(WebSocketError::ProtocolError(_))));
    let frames = vec![
        DataFrame::new(false, Opcode::Binary, vec![1]),
        DataFrame::new(true, Opcode::Binary, vec![2]),
    ];
    assert!(matches!(Message::from_dataframes(frames), Err(WebSocketError::ProtocolError(_))));
    let frames = vec![
        DataFrame::new(false, Opcode::Text, b"ab".to_vec()),
        DataFrame::new(true, Opcode::Continuation, b"cd".to_vec()),
    ];
    assert_eq!(Message::from_dataframes(frames).unwrap(), Message::Text("abcd".to_string()));
}

#[test]
fn close_payloads() {
    assert_eq!(CloseData::new(1000, "ok".to_string()).into_bytes(), vec![0x03, 0xE8, b'o', b'k']);
    assert!(matches!(message_from_data(Opcode::Close, vec![0x03]), Err(WebSocketError::ProtocolError(_))));
    assert_eq!(
        message_from_data(Opcode::Close, vec![0x03, 0xE9]).unwrap(),
        Message::Close(Some(CloseData::new(1001, String::new())))
    );
    assert!(matches!(message_from_data(Opcode::NonControl1, vec![]), Err(WebSocketError::ProtocolError(_))));
}

#[test]
fn bytes_to_string_checks_utf8() {
    assert_eq!(bytes_to_string(b"abc").unwrap(), "abc");
    assert_eq!(bytes_to_string(&[0xC3, 0xA9]).unwrap(), "é");
    assert!(bytes_to_string(&[0xC0, 0xC1]).is_err());
}

#[test]
fn reserved_close_codes_are_not_sent() {
    let mut out = Vec::new();
    let close = Message::Close(Some(CloseData::new(1006, String::new())));
    let r = Sender::new(false).send_message(&mut out, &close);
    assert!(matches!(r, Err(WebSocketError::ProtocolError(_))));
    let close = Message::Close(Some(CloseData::new(1005, String::new())));
    assert!(Sender::new(true).send_message(&mut out, &close).is_err());
    assert!(out.is_empty());
    let close = Message::Close(Some(CloseData::new(1000, String::new())));
    Sender::new(false).send_message(&mut out, &close).unwrap();
    assert_eq!(out, vec![0x88, 0x02, 0x03, 0xE8]);
}

#[test]
fn borrowed_frame_view() {
    let mut frame = DataFrame::oneshot(Opcode::Pong, vec![7, 8]);
    frame.reserved = [false, true, false];
    let r = websocket::dataframe::DataFrameRef::from_frame(&frame);
    assert_eq!(r.meta, 0x80 | 0x20 | 0x0A);
    assert_eq!(r.opcode(), Opcode::Pong);
    assert!(r.is_last());
    assert_eq!(r.reserved(), [false, true, false]);
    assert_eq!(r.data, &[7u8, 8][..]);
}
