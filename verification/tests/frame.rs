use feo::frame::{encode_packet, header_terminated, packet_header, parse_header};

#[test]
fn header_of_empty_body() {
    assert_eq!(packet_header(0), b"Content-Length: 0\r\n\r\n".to_vec());
}

#[test]
fn header_of_multi_digit_length() {
    assert_eq!(packet_header(1234), b"Content-Length: 1234\r\n\r\n".to_vec());
    assert_eq!(packet_header(10), b"Content-Length: 10\r\n\r\n".to_vec());
}

#[test]
fn packet_is_header_then_body() {
    assert_eq!(encode_packet(b"upload"), b"Content-Length: 6\r\n\r\nupload".to_vec());
    assert_eq!(encode_packet(b""), b"Content-Length: 0\r\n\r\n".to_vec());
}

#[test]
fn header_round_trip() {
    for n in [0usize, 1, 9, 10, 99, 100, 65535, 1 << 40, usize::MAX] {
        assert_eq!(parse_header(&packet_header(n)), Some(n));
    }
}

#[test]
fn parse_header_accepts_leading_zeros() {
    assert_eq!(parse_header(b"Content-Length: 007\r\n\r\n"), Some(7));
}

#[test]
fn parse_header_refuses_malformed() {
    assert_eq!(parse_header(b"Content-Length: \r\n\r\n"), None);
    assert_eq!(parse_header(b"Content-Length: 12x\r\n\r\n"), None);
    assert_eq!(parse_header(b"content-length: 12\r\n\r\n"), None);
    assert_eq!(parse_header(b"Content-Length: 12\r\n"), None);
    assert_eq!(parse_header(b"Content-Length:12\r\n\r\n"), None);
    assert_eq!(parse_header(b""), None);
}

#[test]
fn parse_header_refuses_overflow() {
    assert_eq!(parse_header(b"Content-Length: 99999999999999999999999\r\n\r\n"), None);
}

#[test]
fn header_terminated_at_crlfcrlf() {
    assert!(header_terminated(b"Content-Length: 3\r\n\r\n"));
    assert!(!header_terminated(b"Content-Length: 3\r\n"));
    assert!(!header_terminated(b"\r\n\r"));
    assert!(!header_terminated(b""));
}

#[test]
fn reader_stops_at_end_of_header() {
    let mut stream = encode_packet(b"hello");
    stream.extend_from_slice(b"Content-Length: 1\r\n\r\nx");
    let mut k = 0;
    while !header_terminated(&stream[..k]) {
        k += 1;
    }
    assert_eq!(k, packet_header(5).len());
    let n = parse_header(&stream[..k]).unwrap();
    assert_eq!(&stream[k..k + n], b"hello");
}
