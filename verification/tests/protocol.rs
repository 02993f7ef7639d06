use zabbix::{decode, encode, parse_header, validate_header, FrameError};

#[test]
fn test_encode_layout() {
    let frame = encode(b"hello");
    assert_eq!(frame.len(), 5 + 8 + 5);
    assert_eq!(&frame[0..5], &[0x5a, 0x42, 0x58, 0x44, 0x01]);
    assert_eq!(&frame[5..13], &[5, 0, 0, 0, 0, 0, 0, 0]);
    assert_eq!(&frame[13..], b"hello");
}

#[test]
fn test_round_trip() {
    let payloads: Vec<&[u8]> = vec![b"", b"x", b"{\"response\":\"success\"}"];
    for p in payloads {
        let frame = encode(p);
        let back = decode(&frame).expect("frame built by encode must decode");
        assert_eq!(back.as_slice(), p);
    }
}

#[test]
fn test_validate_header() {
    assert!(validate_header(&[0x5a, 0x42, 0x58, 0x44, 0x01]));
    assert!(validate_header(&encode(b"abc")));
    assert!(!validate_header(&[0x5a, 0x42, 0x58, 0x44, 0x02]));
    assert!(!validate_header(b"ZBXC\x01"));
    assert!(!validate_header(&[0x5a, 0x42]));
}

#[test]
fn test_parse_header() {
    let mut h = encode(b"abcd");
    h.truncate(13);
    assert_eq!(parse_header(&h), Ok(4));

    let mut bad = h.clone();
    bad[0] = 0x00;
    assert_eq!(parse_header(&bad), Err(FrameError::BadHeader));

    let empty = encode(b"");
    assert_eq!(parse_header(&empty[0..13]), Err(FrameError::EmptyBody));
}

#[test]
fn test_decode_errors() {
    assert_eq!(decode(&[0x5a, 0x42, 0x58]), Err(FrameError::TooShort));

    let mut frame = encode(b"abc");
    frame[4] = 0x02;
    assert_eq!(decode(&frame), Err(FrameError::BadHeader));

    let mut short = encode(b"abc");
    short.pop();
    assert_eq!(decode(&short), Err(FrameError::LengthMismatch));

    let mut long = encode(b"abc");
    long.push(b'x');
    assert_eq!(decode(&long), Err(FrameError::LengthMismatch));
}
