use murmur::codec::{encode_line, Decoder};
use murmur::error::MurmurError;
use murmur::MAX_MESSAGE_SIZE;

#[test]
fn encode_appends_single_delimiter() {
    assert_eq!(encode_line(b"hello").unwrap(), b"hello\n".to_vec());
    assert_eq!(encode_line(b"").unwrap(), b"\n".to_vec());
}

#[test]
fn round_trip_yields_original_line() {
    let wire = encode_line(b"hello world").unwrap();
    let mut d = Decoder::new();
    d.feed(&wire);
    assert_eq!(d.next_message().unwrap(), Some(b"hello world".to_vec()));
    assert_eq!(d.next_message().unwrap(), None);
}

#[test]
fn round_trip_of_utf8_text() {
    let text = "caf\u{e9} \u{4e2d}\u{6587}";
    let wire = encode_line(text.as_bytes()).unwrap();
    let mut d = Decoder::new();
    d.feed(&wire);
    let got = d.next_message().unwrap().unwrap();
    assert_eq!(String::from_utf8(got).unwrap(), text);
}

#[test]
fn empty_lines_are_dropped() {
    let mut d = Decoder::new();
    d.feed(b"\n\nhi\n\n");
    assert_eq!(d.next_message().unwrap(), Some(b"hi".to_vec()));
    assert_eq!(d.next_message().unwrap(), None);
}

#[test]
fn lines_are_delivered_in_order() {
    let mut d = Decoder::new();
    d.feed(b"one\ntwo\nthree\n");
    assert_eq!(d.next_message().unwrap(), Some(b"one".to_vec()));
    assert_eq!(d.next_message().unwrap(), Some(b"two".to_vec()));
    assert_eq!(d.next_message().unwrap(), Some(b"three".to_vec()));
    assert_eq!(d.next_message().unwrap(), None);
}

#[test]
fn split_feeds_reassemble_one_line() {
    let mut d = Decoder::new();
    d.feed(b"he");
    assert_eq!(d.next_message().unwrap(), None);
    d.feed(b"llo");
    assert_eq!(d.next_message().unwrap(), None);
    d.feed(b"\n");
    assert_eq!(d.next_message().unwrap(), Some(b"hello".to_vec()));
}

#[test]
fn carriage_return_is_kept() {
    let mut d = Decoder::new();
    d.feed(b"a\r\n");
    assert_eq!(d.next_message().unwrap(), Some(b"a\r".to_vec()));
}

#[test]
fn encode_rejects_line_over_ceiling() {
    let msg = vec![b'a'; MAX_MESSAGE_SIZE];
    assert_eq!(encode_line(&msg), Err(MurmurError::MessageTooLarge(MAX_MESSAGE_SIZE + 1)));
}

#[test]
fn encode_accepts_line_at_ceiling() {
    let msg = vec![b'a'; MAX_MESSAGE_SIZE - 1];
    let wire = encode_line(&msg).unwrap();
    assert_eq!(wire.len(), MAX_MESSAGE_SIZE);
    assert_eq!(*wire.last().unwrap(), b'\n');
}

#[test]
fn decode_rejects_line_over_ceiling() {
    let mut wire = vec![b'a'; MAX_MESSAGE_SIZE];
    wire.push(b'\n');
    let mut d = Decoder::new();
    d.feed(&wire);
    assert_eq!(d.next_message(), Err(MurmurError::MessageTooLarge(MAX_MESSAGE_SIZE + 1)));
}

#[test]
fn decode_accepts_line_at_ceiling() {
    let mut wire = vec![b'a'; MAX_MESSAGE_SIZE - 1];
    wire.push(b'\n');
    let mut d = Decoder::new();
    d.feed(&wire);
    assert_eq!(d.next_message().unwrap(), Some(vec![b'a'; MAX_MESSAGE_SIZE - 1]));
}

#[test]
fn oversize_line_does_not_corrupt_later_lines() {
    let mut wire = vec![b'a'; MAX_MESSAGE_SIZE];
    wire.push(b'\n');
    wire.extend_from_slice(b"ok\n");
    let mut d = Decoder::new();
    d.feed(&wire);
    assert_eq!(d.next_message(), Err(MurmurError::MessageTooLarge(MAX_MESSAGE_SIZE + 1)));
    assert_eq!(d.next_message().unwrap(), Some(b"ok".to_vec()));
    assert_eq!(d.next_message().unwrap(), None);
}

#[test]
fn finish_flushes_unterminated_final_line() {
    let mut d = Decoder::new();
    d.feed(b"head\ntail");
    assert_eq!(d.next_message().unwrap(), Some(b"head".to_vec()));
    assert_eq!(d.next_message().unwrap(), None);
    assert_eq!(d.finish().unwrap(), Some(b"tail".to_vec()));
}

#[test]
fn finish_of_drained_stream_yields_nothing() {
    let mut d = Decoder::new();
    d.feed(b"line\n");
    assert_eq!(d.next_message().unwrap(), Some(b"line".to_vec()));
    assert_eq!(d.finish().unwrap(), None);
}

#[test]
fn finish_rejects_oversize_remainder() {
    let mut d = Decoder::new();
    d.feed(&vec![b'a'; MAX_MESSAGE_SIZE + 1]);
    assert_eq!(d.next_message().unwrap(), None);
    assert_eq!(d.finish(), Err(MurmurError::MessageTooLarge(MAX_MESSAGE_SIZE + 1)));
}
