use websocket::dataframe::Opcode;
use websocket::header::{read_header, write_header, DataFrameHeader, FIN, RSV1};
use websocket::result::WebSocketError;

#[test]
fn test_read_header_simple() {
    let header = [0x81, 0x2B];
    let (obtained, _) = read_header(&header[..]).unwrap();
    let expected = DataFrameHeader { flags: FIN, opcode: 1, mask: None, len: 43 };
    assert_eq!(obtained, expected);
}

#[test]
fn test_write_header_simple() {
    let header = DataFrameHeader { flags: FIN, opcode: 1, mask: None, len: 43 };
    let expected = [0x81, 0x2B];
    let mut obtained = Vec::with_capacity(2);
    write_header(&mut obtained, header).unwrap();
    assert_eq!(&obtained[..], &expected[..]);
}

#[test]
fn test_read_header_complex() {
    let header = [0x42, 0xFE, 0x02, 0x00, 0x02, 0x04, 0x08, 0x10];
    let (obtained, _) = read_header(&header[..]).unwrap();
    let expected = DataFrameHeader { flags: RSV1, opcode: 2, mask: Some([2, 4, 8, 16]), len: 512 };
    assert_eq!(obtained, expected);
}

#[test]
fn test_write_header_complex() {
    let header = DataFrameHeader { flags: RSV1, opcode: 2, mask: Some([2, 4, 8, 16]), len: 512 };
    let expected = [0x42, 0xFE, 0x02, 0x00, 0x02, 0x04, 0x08, 0x10];
    let mut obtained = Vec::with_capacity(8);
    write_header(&mut obtained, header).unwrap();
    assert_eq!(&obtained[..], &expected[..]);
}

fn written_len(len: u64, mask: Option<[u8; 4]>) -> usize {
    let mut out = Vec::new();
    write_header(&mut out, DataFrameHeader { flags: FIN, opcode: 2, mask, len }).unwrap();
    out.len()
}

#[test]
fn header_sizes_follow_the_length() {
    assert_eq!(written_len(0, None), 2);
    assert_eq!(written_len(125, None), 2);
    assert_eq!(written_len(125, Some([1, 2, 3, 4])), 6);
    assert_eq!(written_len(126, None), 4);
    assert_eq!(written_len(65535, Some([1, 2, 3, 4])), 8);
    assert_eq!(written_len(65536, None), 10);
    assert_eq!(written_len(u64::MAX >> 1, Some([1, 2, 3, 4])), 14);
}

#[test]
fn header_round_trips() {
    let headers = [
        DataFrameHeader { flags: FIN, opcode: 1, mask: None, len: 0 },
        DataFrameHeader { flags: RSV1, opcode: 2, mask: Some([9, 8, 7, 6]), len: 126 },
        DataFrameHeader { flags: 0, opcode: 0, mask: None, len: 70000 },
        DataFrameHeader { flags: FIN, opcode: 9, mask: Some([0, 0, 0, 1]), len: 125 },
    ];
    for h in headers.iter() {
        let mut out = Vec::new();
        write_header(&mut out, *h).unwrap();
        out.extend_from_slice(&[0xAA, 0xBB]);
        let (back, n) = read_header(&out).unwrap();
        assert_eq!(back, *h);
        assert_eq!(n, out.len() - 2);
    }
}

#[test]
fn header_write_rejects_long_control_frame() {
    let mut out = Vec::new();
    let r = write_header(&mut out, DataFrameHeader { flags: FIN, opcode: 8, mask: None, len: 126 });
    assert!(matches!(r, Err(WebSocketError::DataFrameError(_))));
    assert!(out.is_empty());
    let r = write_header(&mut out, DataFrameHeader { flags: FIN, opcode: 16, mask: None, len: 1 });
    assert!(matches!(r, Err(WebSocketError::DataFrameError(_))));
}

#[test]
fn header_read_rejects_non_minimal_lengths() {
    let r = read_header(&[0x82, 0x7E, 0x00, 0x7D]);
    assert!(matches!(r, Err(WebSocketError::DataFrameError(_))));
    let r = read_header(&[0x82, 0x7F, 0, 0, 0, 0, 0, 0, 0xFF, 0xFF]);
    assert!(matches!(r, Err(WebSocketError::DataFrameError(_))));
}

#[test]
fn header_read_rejects_fragmented_control_frame() {
    let r = read_header(&[0x09, 0x00]);
    assert!(matches!(r, Err(WebSocketError::DataFrameError(_))));
}

#[test]
fn header_read_of_truncated_input_asks_for_more() {
    assert!(matches!(read_header(&[0x81]), Err(WebSocketError::NoDataAvailable)));
    assert!(matches!(read_header(&[0x81, 0x7E, 0x01]), Err(WebSocketError::NoDataAvailable)));
    assert!(matches!(read_header(&[0x81, 0x85, 1, 2]), Err(WebSocketError::NoDataAvailable)));
}

#[test]
fn header_new_sets_flags() {
    let h = DataFrameHeader::new(true, [true, false, true], Opcode::Binary, None, 3);
    assert_eq!(h.flags, 0x80 | 0x40 | 0x10);
    assert_eq!(h.opcode, 2);
    assert_eq!(h.len, 3);
}

#[test]
fn opcode_from_nibble() {
    assert_eq!(Opcode::new(0), Some(Opcode::Continuation));
    assert_eq!(Opcode::new(9), Some(Opcode::Ping));
    assert_eq!(Opcode::new(15), Some(Opcode::Control5));
    assert_eq!(Opcode::new(16), None);
    assert_eq!(Opcode::Pong.value(), 10);
    assert!(Opcode::Close.is_control());
    assert!(!Opcode::Binary.is_control());
}
