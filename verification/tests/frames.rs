use tiny_redis::codec::{read_header, safe_to_scan, settle, try_frame, Attempt, ScanError, Step};
use tiny_redis::{encode, RespFrame};

fn bulk(text: &str) -> RespFrame {
    RespFrame::Bulk(text.as_bytes().to_vec())
}

#[test]
fn encode_simple_string() {
    let out = encode(&RespFrame::Simple(String::from("OK")));
    assert_eq!(out, Some(b"+OK\r\n".to_vec()));
}

#[test]
fn encode_error_string() {
    let out = encode(&RespFrame::Error(String::from("Unsupported command.")));
    assert_eq!(out, Some(b"-Unsupported command.\r\n".to_vec()));
}

#[test]
fn encode_integers() {
    assert_eq!(encode(&RespFrame::Integer(0)), Some(b":0\r\n".to_vec()));
    assert_eq!(encode(&RespFrame::Integer(7)), Some(b":7\r\n".to_vec()));
    assert_eq!(encode(&RespFrame::Integer(10)), Some(b":10\r\n".to_vec()));
    assert_eq!(encode(&RespFrame::Integer(1234567890)), Some(b":1234567890\r\n".to_vec()));
    assert_eq!(
        encode(&RespFrame::Integer(u64::MAX)),
        Some(b":18446744073709551615\r\n".to_vec())
    );
}

#[test]
fn encode_null() {
    assert_eq!(encode(&RespFrame::Null), Some(b"$-1\r\n".to_vec()));
}

#[test]
fn encode_bulk() {
    assert_eq!(encode(&bulk("bar")), Some(b"$3\r\nbar\r\n".to_vec()));
    assert_eq!(encode(&bulk("")), Some(b"$0\r\n\r\n".to_vec()));
    assert_eq!(
        encode(&bulk("hello world!")),
        Some(b"$12\r\nhello world!\r\n".to_vec())
    );
    assert_eq!(
        encode(&RespFrame::Bulk(vec![0, 13, 10, 255])),
        Some(vec![b'$', b'4', 13, 10, 0, 13, 10, 255, 13, 10])
    );
}

#[test]
fn encode_non_ascii_text() {
    let out = encode(&RespFrame::Simple(String::from("é")));
    assert_eq!(out, Some(vec![b'+', 0xc3, 0xa9, 13, 10]));
}

#[test]
fn encode_array_has_no_wire_form() {
    assert_eq!(encode(&RespFrame::Array(vec![])), None);
    assert_eq!(encode(&RespFrame::Array(vec![bulk("GET"), bulk("foo")])), None);
}

#[test]
fn try_frame_takes_each_kind() {
    assert_eq!(
        try_frame(b"+OK\r\n"),
        Attempt::Taken(RespFrame::Simple(String::from("OK")), 5)
    );
    assert_eq!(
        try_frame(b"-oops\r\n"),
        Attempt::Taken(RespFrame::Error(String::from("oops")), 7)
    );
    assert_eq!(try_frame(b":42\r\n"), Attempt::Taken(RespFrame::Integer(42), 5));
    assert_eq!(try_frame(b"$-1\r\n"), Attempt::Taken(RespFrame::Null, 5));
    assert_eq!(try_frame(b"$3\r\nbar\r\n"), Attempt::Taken(bulk("bar"), 9));
    assert_eq!(try_frame(b"$0\r\n\r\n"), Attempt::Taken(bulk(""), 6));
}

#[test]
fn try_frame_takes_arrays() {
    assert_eq!(
        try_frame(b"*2\r\n$3\r\nGET\r\n$3\r\nfoo\r\n"),
        Attempt::Taken(RespFrame::Array(vec![bulk("GET"), bulk("foo")]), 22)
    );
    assert_eq!(try_frame(b"*0\r\n"), Attempt::Taken(RespFrame::Array(vec![]), 4));
    assert_eq!(
        try_frame(b"*2\r\n*1\r\n:1\r\n$-1\r\n"),
        Attempt::Taken(
            RespFrame::Array(vec![
                RespFrame::Array(vec![RespFrame::Integer(1)]),
                RespFrame::Null
            ]),
            17
        )
    );
}

#[test]
fn try_frame_reports_only_the_first_frame() {
    assert_eq!(
        try_frame(b"+OK\r\n:1\r\n"),
        Attempt::Taken(RespFrame::Simple(String::from("OK")), 5)
    );
}

#[test]
fn try_frame_waits_for_more() {
    assert_eq!(try_frame(b""), Attempt::Pending);
    assert_eq!(try_frame(b"+"), Attempt::Pending);
    assert_eq!(try_frame(b"+OK"), Attempt::Pending);
    assert_eq!(try_frame(b"+OK\r"), Attempt::Pending);
    assert_eq!(try_frame(b"$3\r\nba"), Attempt::Pending);
    assert_eq!(try_frame(b"$3\r\nbar\r"), Attempt::Pending);
    assert_eq!(try_frame(b"*2\r\n$3\r\nGET\r\n"), Attempt::Pending);
    assert_eq!(try_frame(b"$1234567890123456789\r\n"), Attempt::Pending);
    assert_eq!(try_frame(b"$18446744073709551613\r\n"), Attempt::Pending);
    assert_eq!(try_frame(b"$99999999999999999999"), Attempt::Pending);
}

#[test]
fn try_frame_rejects_bad_input() {
    assert_eq!(try_frame(b"!abc\r\n"), Attempt::Invalid);
    assert_eq!(try_frame(b"GET foo\r\n"), Attempt::Invalid);
    assert_eq!(try_frame(b":abc\r\n"), Attempt::Invalid);
    assert_eq!(try_frame(b"$-2\r\n"), Attempt::Invalid);
    assert_eq!(try_frame(b"$abc\r\n"), Attempt::Invalid);
    assert_eq!(try_frame(b"$18446744073709551616\r\n"), Attempt::Invalid);
    assert_eq!(try_frame(b"$99999999999999999999\r\n"), Attempt::Invalid);
    assert_eq!(try_frame(&[b'+', 0xff, 13, 10]), Attempt::Invalid);
}

#[test]
fn try_frame_rejects_lengths_that_cannot_fit() {
    assert_eq!(try_frame(b"$18446744073709551615\r\n"), Attempt::Invalid);
    assert_eq!(try_frame(b"$18446744073709551614\r\nabc"), Attempt::Invalid);
    assert_eq!(try_frame(b"*1\r\n$0018446744073709551615\r\n"), Attempt::Invalid);
    assert_eq!(try_frame(b"*2\r\n+a\r\n$18446744073709551614\r\n"), Attempt::Invalid);
}

#[test]
fn safe_to_scan_tests_only_the_lengths_that_are_read() {
    assert!(safe_to_scan(b""));
    assert!(safe_to_scan(b"$"));
    assert!(safe_to_scan(b"$3\r\nbar\r\n"));
    assert!(safe_to_scan(b"$12345678901234567890\r\n"));
    assert!(safe_to_scan(b"$18446744073709551613\r\n"));
    assert!(!safe_to_scan(b"$18446744073709551614\r\n"));
    assert!(!safe_to_scan(b"$00018446744073709551615xyz\r\n"));
    assert!(safe_to_scan(b"$18446744073709551615"));
    assert!(safe_to_scan(b"$18446744073709551616\r\n"));
    assert!(safe_to_scan(b":18446744073709551615\r\n"));
    assert!(safe_to_scan(b"+$18446744073709551615\r\n"));
    assert!(safe_to_scan(b"-$18446744073709551614\r\n"));
    assert!(safe_to_scan(b"$21\r\n$18446744073709551615\r\n"));
    assert!(safe_to_scan(b"+OK\r\n$18446744073709551615\r\n"));
    assert!(safe_to_scan(b"*0\r\n$18446744073709551615\r\n"));
    assert!(!safe_to_scan(b"*1\r\n$18446744073709551615\r\n"));
    assert!(safe_to_scan(b"*1\r\n:1\r\n$18446744073709551615\r\n"));
    assert!(!safe_to_scan(b"*2\r\n*0\r\n$18446744073709551615\r\n"));
    assert!(safe_to_scan(b"!$18446744073709551615\r\n"));
}

#[test]
fn payload_that_looks_like_a_huge_length_is_data() {
    let payload = b"$18446744073709551615".to_vec();
    let bytes = encode(&RespFrame::Bulk(payload.clone())).unwrap();
    assert_eq!(bytes, b"$21\r\n$18446744073709551615\r\n".to_vec());
    assert_eq!(try_frame(&bytes), Attempt::Taken(RespFrame::Bulk(payload), 28));
    let text = String::from("$18446744073709551614");
    let bytes = encode(&RespFrame::Simple(text.clone())).unwrap();
    assert_eq!(try_frame(&bytes), Attempt::Taken(RespFrame::Simple(text), 24));
    let request = b"*3\r\n$3\r\nSET\r\n$1\r\nk\r\n$23\r\n\r\n$18446744073709551615\r\n";
    assert_eq!(
        try_frame(request),
        Attempt::Taken(
            RespFrame::Array(vec![
                bulk("SET"),
                bulk("k"),
                RespFrame::Bulk(b"\r\n$18446744073709551615".to_vec())
            ]),
            request.len()
        )
    );
}

fn nested(depth: usize) -> Vec<u8> {
    let mut bytes = Vec::new();
    for _ in 1..depth {
        bytes.extend_from_slice(b"*1\r\n");
    }
    bytes.extend_from_slice(b":7\r\n");
    bytes
}

#[test]
fn nesting_is_read_to_the_limit() {
    assert_eq!(tiny_redis::codec::MAX_NESTING, 128);
    let bytes = nested(3);
    assert_eq!(
        try_frame(&bytes),
        Attempt::Taken(
            RespFrame::Array(vec![RespFrame::Array(vec![RespFrame::Integer(7)])]),
            12
        )
    );
    let bytes = nested(128);
    assert!(safe_to_scan(&bytes));
    assert!(matches!(try_frame(&bytes), Attempt::Taken(RespFrame::Array(_), 512)));
}

#[test]
fn deeper_nesting_is_refused() {
    let bytes = nested(129);
    assert!(!safe_to_scan(&bytes));
    assert_eq!(try_frame(&bytes), Attempt::Invalid);
    let mut many = Vec::new();
    for _ in 0..200000 {
        many.extend_from_slice(b"*1\r\n");
    }
    assert_eq!(try_frame(&many), Attempt::Invalid);
    let mut wide = b"*300\r\n".to_vec();
    for _ in 0..300 {
        wide.extend_from_slice(b"*1\r\n:1\r\n");
    }
    assert!(safe_to_scan(&wide));
    assert!(matches!(try_frame(&wide), Attempt::Taken(RespFrame::Array(_), _)));
}

#[test]
fn read_header_of_each_kind() {
    assert_eq!(read_header(b"", 0), Step::Stop);
    assert_eq!(read_header(b"+OK\r\n", 0), Step::Next(5));
    assert_eq!(read_header(b"+OK\r", 0), Step::Stop);
    assert_eq!(read_header(b"-e\r\n:1\r\n", 0), Step::Next(4));
    assert_eq!(read_header(b"-e\r\n:12\r\n", 4), Step::Next(9));
    assert_eq!(read_header(b":x\r\n", 0), Step::Stop);
    assert_eq!(read_header(b"$-1\r\n", 0), Step::Next(5));
    assert_eq!(read_header(b"$-1\r", 0), Step::Stop);
    assert_eq!(read_header(b"$3\r\nbar\r\n", 0), Step::Next(9));
    assert_eq!(read_header(b"$3\r\nbar\r", 0), Step::Stop);
    assert_eq!(read_header(b"$18446744073709551615\r\n", 0), Step::Overflow);
    assert_eq!(read_header(b"$18446744073709551616\r\n", 0), Step::Stop);
    assert_eq!(read_header(b"*2\r\n:1\r\n:2\r\n", 0), Step::Open(4, 2));
    assert_eq!(read_header(b"*0\r\n", 0), Step::Open(4, 0));
    assert_eq!(read_header(b"?\r\n", 0), Step::Stop);
    assert_eq!(read_header(b"+OK\r\n", 9), Step::Stop);
}

#[test]
fn leading_zeros_in_a_length_are_read() {
    assert_eq!(
        try_frame(b"$00000000000000000000003\r\nbar\r\n"),
        Attempt::Taken(bulk("bar"), 31)
    );
}

#[test]
fn decode_of_encode_is_identity() {
    let frames = vec![
        RespFrame::Simple(String::from("OK")),
        RespFrame::Simple(String::new()),
        RespFrame::Error(String::from("Failed to read the command.")),
        RespFrame::Integer(0),
        RespFrame::Integer(987654321),
        RespFrame::Integer(u64::MAX),
        RespFrame::Null,
        bulk(""),
        bulk("bar"),
        RespFrame::Bulk(vec![0, 1, 2, 13, 10, 36, 255]),
    ];
    for f in frames {
        let bytes = encode(&f).unwrap();
        let n = bytes.len();
        assert_eq!(try_frame(&bytes), Attempt::Taken(f, n));
    }
}

#[test]
fn settle_combines_scan_and_decode() {
    assert_eq!(settle(Err(ScanError::Incomplete), None), Attempt::Pending);
    assert_eq!(settle(Err(ScanError::Malformed), None), Attempt::Invalid);
    assert_eq!(settle(Ok(5), None), Attempt::Invalid);
    assert_eq!(settle(Ok(5), Some(RespFrame::Null)), Attempt::Taken(RespFrame::Null, 5));
    assert_eq!(
        settle(Ok(9), Some(bulk("bar"))),
        Attempt::Taken(bulk("bar"), 9)
    );
}
