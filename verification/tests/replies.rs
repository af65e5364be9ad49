use kv_command::command::Response;
use kv_command::decimal::{decimal_bytes, signed_decimal_bytes};

/// The payload of a bulk frame, read the way a client reads it: the digits up
/// to the first line terminator, then that many bytes, then a terminator.
fn read_bulk(frame: &[u8]) -> Option<Vec<u8>> {
    if frame.first() != Some(&b'$') {
        return None;
    }
    let end = frame.windows(2).position(|pair| pair == b"\r\n")?;
    let digits = std::str::from_utf8(&frame[1..end]).ok()?;
    let length: usize = digits.parse().ok()?;
    let start = end + 2;
    let stop = start + length;
    if frame.len() != stop + 2 || &frame[stop..] != b"\r\n" {
        return None;
    }
    Some(frame[start..stop].to_vec())
}

#[test]
fn nil_is_minus_one() {
    assert_eq!(Response::Nil.as_bytes(), b"$-1\r\n".to_vec());
}

#[test]
fn nil_carries_no_payload() {
    assert_eq!(read_bulk(&Response::Nil.as_bytes()), None);
}

#[test]
fn status_ok() {
    assert_eq!(Response::Status("OK".to_string()).as_bytes(), b"+OK\r\n".to_vec());
}

#[test]
fn error_bad() {
    assert_eq!(Response::Error("bad".to_string()).as_bytes(), b"-bad\r\n".to_vec());
}

#[test]
fn error_with_empty_message() {
    assert_eq!(Response::Error(String::new()).as_bytes(), b"-\r\n".to_vec());
}

#[test]
fn status_keeps_text_beyond_ascii() {
    let bytes = Response::Status("gr\u{fc}n \u{2713}".to_string()).as_bytes();
    assert_eq!(bytes, "+gr\u{fc}n \u{2713}\r\n".as_bytes().to_vec());
}

#[test]
fn data_of_five_bytes() {
    assert_eq!(Response::Data(b"hello".to_vec()).as_bytes(), b"$5\r\nhello\r\n".to_vec());
}

#[test]
fn data_of_no_bytes() {
    assert_eq!(Response::Data(Vec::new()).as_bytes(), b"$0\r\n\r\n".to_vec());
}

#[test]
fn data_with_line_terminators_inside() {
    let payload = b"a\r\nb\r\n\r\n".to_vec();
    let frame = Response::Data(payload.clone()).as_bytes();
    assert_eq!(payload.len(), 8);
    assert_eq!(frame, b"$8\r\na\r\nb\r\n\r\n\r\n".to_vec());
    assert_eq!(read_bulk(&frame), Some(payload));
}

#[test]
fn data_with_every_byte_value() {
    let payload: Vec<u8> = (0..=255u8).collect();
    let frame = Response::Data(payload.clone()).as_bytes();
    assert_eq!(&frame[..6], b"$256\r\n");
    assert_eq!(&frame[6..262], &payload[..]);
    assert_eq!(&frame[262..], b"\r\n");
    assert_eq!(read_bulk(&frame), Some(payload));
}

#[test]
fn data_length_prefix_counts_bytes() {
    for length in [0usize, 1, 9, 10, 11, 99, 100, 101, 999, 1000, 4096, 70000] {
        let payload = vec![b'x'; length];
        let frame = Response::Data(payload.clone()).as_bytes();
        let header = format!("${}\r\n", length);
        assert_eq!(&frame[..header.len()], header.as_bytes());
        assert_eq!(frame.len(), header.len() + length + 2);
        assert_eq!(read_bulk(&frame), Some(payload));
    }
}

#[test]
fn data_that_looks_like_a_frame() {
    let payload = b"$3\r\nabc\r\n".to_vec();
    let frame = Response::Data(payload.clone()).as_bytes();
    assert_eq!(frame, b"$9\r\n$3\r\nabc\r\n\r\n".to_vec());
    assert_eq!(read_bulk(&frame), Some(payload));
}

#[test]
fn replies_differ_on_the_wire() {
    let replies = vec![
        Response::Nil,
        Response::Data(Vec::new()),
        Response::Data(b"-1".to_vec()),
        Response::Data(b"OK".to_vec()),
        Response::Error("OK".to_string()),
        Response::Status("OK".to_string()),
        Response::Error(String::new()),
        Response::Status(String::new()),
        Response::Error("1".to_string()),
    ];
    for (i, left) in replies.iter().enumerate() {
        for (j, right) in replies.iter().enumerate() {
            assert_eq!(left.as_bytes() == right.as_bytes(), i == j);
        }
    }
}

#[test]
fn encoding_is_repeatable() {
    let reply = Response::Data(b"again".to_vec());
    assert_eq!(reply.as_bytes(), reply.as_bytes());
    assert_eq!(reply, Response::Data(b"again".to_vec()));
}

#[test]
fn decimal_of_small_numbers() {
    assert_eq!(decimal_bytes(0), b"0".to_vec());
    assert_eq!(decimal_bytes(7), b"7".to_vec());
    assert_eq!(decimal_bytes(10), b"10".to_vec());
    assert_eq!(decimal_bytes(1203), b"1203".to_vec());
}

#[test]
fn decimal_of_the_largest_number() {
    assert_eq!(decimal_bytes(u64::MAX), b"18446744073709551615".to_vec());
}

#[test]
fn decimal_agrees_with_the_formatter() {
    let mut n: u64 = 1;
    for _ in 0..64 {
        assert_eq!(decimal_bytes(n), format!("{}", n).into_bytes());
        assert_eq!(decimal_bytes(n - 1), format!("{}", n - 1).into_bytes());
        n = n.wrapping_mul(2);
    }
}

#[test]
fn signed_decimal_of_both_signs() {
    assert_eq!(signed_decimal_bytes(0), b"0".to_vec());
    assert_eq!(signed_decimal_bytes(42), b"42".to_vec());
    assert_eq!(signed_decimal_bytes(-1), b"-1".to_vec());
    assert_eq!(signed_decimal_bytes(-120), b"-120".to_vec());
}

#[test]
fn signed_decimal_at_the_limits() {
    assert_eq!(signed_decimal_bytes(i64::MAX), b"9223372036854775807".to_vec());
    assert_eq!(signed_decimal_bytes(i64::MIN), b"-9223372036854775808".to_vec());
}
