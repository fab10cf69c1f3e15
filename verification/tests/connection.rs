use tiny_redis::codec::Attempt;
use tiny_redis::{encode, ConnError, Connection, Progress, RespFrame};

fn bulk(text: &str) -> RespFrame {
    RespFrame::Bulk(text.as_bytes().to_vec())
}

#[test]
fn new_connection_is_empty() {
    let c = Connection::new();
    assert_eq!(c.pending(), 0);
}

#[test]
fn parse_on_empty_buffer_waits() {
    let mut c = Connection::new();
    assert_eq!(c.parse(), Ok(None));
    assert_eq!(c.pending(), 0);
}

#[test]
fn read_takes_a_whole_frame() {
    let mut c = Connection::new();
    assert_eq!(c.read(b"$3\r\nbar\r\n"), Ok(Progress::Ready(bulk("bar"))));
    assert_eq!(c.pending(), 0);
}

#[test]
fn clean_close_on_empty_buffer() {
    let mut c = Connection::new();
    assert_eq!(c.read(b""), Ok(Progress::Closed));
    assert_eq!(c.pending(), 0);
}

#[test]
fn dirty_close_is_a_reset() {
    let mut c = Connection::new();
    assert_eq!(c.read(b"$3\r\nba"), Ok(Progress::Pending));
    assert_eq!(c.pending(), 6);
    assert_eq!(c.read(b""), Err(ConnError::ResetByPeer));
    assert_eq!(c.pending(), 6);
}

#[test]
fn close_after_a_taken_frame_is_clean() {
    let mut c = Connection::new();
    assert_eq!(c.read(b":5\r\n"), Ok(Progress::Ready(RespFrame::Integer(5))));
    assert_eq!(c.read(b""), Ok(Progress::Closed));
}

#[test]
fn malformed_frame_is_an_error_without_a_response() {
    let mut c = Connection::new();
    assert_eq!(c.read(b"$-2\r\n"), Err(ConnError::Malformed));
}

#[test]
fn invalid_tag_is_malformed() {
    let mut c = Connection::new();
    assert_eq!(c.read(b"hello\r\n"), Err(ConnError::Malformed));
    assert_eq!(c.pending(), 7);
}

#[test]
fn pipelined_bytes_stay_for_the_next_call() {
    let mut c = Connection::new();
    let got = c.read(b"+OK\r\n:12\r\n$3\r\nba");
    assert_eq!(got, Ok(Progress::Ready(RespFrame::Simple(String::from("OK")))));
    assert_eq!(c.pending(), 11);
    assert_eq!(c.parse(), Ok(Some(RespFrame::Integer(12))));
    assert_eq!(c.pending(), 6);
    assert_eq!(c.parse(), Ok(None));
    assert_eq!(c.pending(), 6);
    assert_eq!(c.read(b"r\r\n"), Ok(Progress::Ready(bulk("bar"))));
    assert_eq!(c.pending(), 0);
}

#[test]
fn split_delivery_gives_the_same_frame() {
    let frames = vec![
        RespFrame::Simple(String::from("OK")),
        RespFrame::Error(String::from("Unsupported command.")),
        RespFrame::Integer(1234567890),
        RespFrame::Null,
        bulk("bar"),
        bulk(""),
    ];
    for f in frames {
        let bytes = encode(&f).unwrap();
        for cut in 1..bytes.len() {
            let mut c = Connection::new();
            assert_eq!(c.read(&bytes[..cut]), Ok(Progress::Pending));
            assert_eq!(c.pending(), cut);
            let got = c.read(&bytes[cut..]);
            assert_eq!(got, Ok(Progress::Ready(encode_back(&bytes))));
            assert_eq!(c.pending(), 0);
        }
    }
}

fn encode_back(bytes: &[u8]) -> RespFrame {
    let mut whole = Connection::new();
    match whole.read(bytes) {
        Ok(Progress::Ready(f)) => f,
        other => panic!("no frame: {:?}", other),
    }
}

#[test]
fn byte_by_byte_delivery_of_a_request() {
    let request = b"*3\r\n$3\r\nSET\r\n$3\r\nfoo\r\n$3\r\nbar\r\n";
    let mut c = Connection::new();
    for i in 0..request.len() - 1 {
        assert_eq!(c.read(&request[i..i + 1]), Ok(Progress::Pending));
    }
    let got = c.read(&request[request.len() - 1..]);
    let expected = RespFrame::Array(vec![bulk("SET"), bulk("foo"), bulk("bar")]);
    assert_eq!(got, Ok(Progress::Ready(expected)));
}

#[test]
fn conn_error_messages() {
    assert_eq!(ConnError::ResetByPeer.message(), "Connection reset by peer.");
    assert_eq!(ConnError::Malformed.message(), "protocol error; invalid frame format");
}

#[test]
fn conclude_drops_exactly_the_taken_bytes() {
    let mut c = Connection::new();
    assert_eq!(c.read(b"+OK"), Ok(Progress::Pending));
    assert_eq!(c.conclude(Attempt::Pending), Ok(None));
    assert_eq!(c.pending(), 3);
    assert_eq!(c.conclude(Attempt::Invalid), Err(ConnError::Malformed));
    assert_eq!(c.pending(), 3);
    assert_eq!(
        c.conclude(Attempt::Taken(RespFrame::Null, 2)),
        Ok(Some(RespFrame::Null))
    );
    assert_eq!(c.pending(), 1);
    assert_eq!(c.read(b"\r\n"), Err(ConnError::Malformed));
    assert_eq!(c.pending(), 3);
}

#[test]
fn bulk_payload_with_dollar_and_digits_is_read() {
    let payload = b"$18446744073709551615".to_vec();
    let mut c = Connection::new();
    let bytes = encode(&RespFrame::Bulk(payload.clone())).unwrap();
    assert_eq!(c.read(&bytes), Ok(Progress::Ready(RespFrame::Bulk(payload))));
    assert_eq!(c.pending(), 0);
}

#[test]
fn deep_nesting_is_malformed_not_a_crash() {
    let mut bytes = Vec::new();
    for _ in 0..100000 {
        bytes.extend_from_slice(b"*1\r\n");
    }
    let mut c = Connection::new();
    assert_eq!(c.read(&bytes), Err(ConnError::Malformed));
}
