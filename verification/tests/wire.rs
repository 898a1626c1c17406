//! Bytes on the wire: arguments out, requests in.
use tokio_way_core::protocol::messages::{build_message, build_message_with_fd, Message};
use tokio_way_core::protocol::wire_utils::{encode_args, Arg, ClientMessage};
use tokio_way_core::protocol::signature::{request_at, requests};
use tokio_way_core::protocol::ObjectType;
use tokio_way_core::text::{decimal_text, hex_text, same_text, with_number};

fn message(args: Vec<u8>) -> ClientMessage {
    ClientMessage { client_id: 1, object_id: 2, op_code: 0, args }
}

#[test]
fn words_are_little_endian() {
    assert_eq!(encode_args(&vec![Arg::Uint(0x0102_0304)]), vec![4, 3, 2, 1]);
    assert_eq!(encode_args(&vec![Arg::Int(-1)]), vec![255, 255, 255, 255]);
    assert_eq!(encode_args(&vec![Arg::Object(None)]), vec![0, 0, 0, 0]);
    assert_eq!(encode_args(&vec![Arg::Object(Some(7))]), vec![7, 0, 0, 0]);
}

#[test]
fn strings_carry_their_length_and_are_padded() {
    let bytes = encode_args(&vec![Arg::Str("hello".to_string()), Arg::Uint(9)]);
    assert_eq!(bytes, vec![6, 0, 0, 0, b'h', b'e', b'l', b'l', b'o', 0, 0, 0, 9, 0, 0, 0]);
}

#[test]
fn what_is_written_is_read_back() {
    let bytes = encode_args(&vec![Arg::Uint(5), Arg::Str("text/plain".to_string()), Arg::Int(-70000)]);
    let msg = message(bytes);
    assert_eq!(msg.unsigned(0), Some(5));
    let (text, end) = msg.string(4).unwrap();
    assert_eq!(text, "text/plain");
    assert_eq!(end, 4 + 4 + 12);
    assert_eq!(msg.read(end), Some((-70000i32) as u32));
}

#[test]
fn signed_words_are_read_with_their_sign() {
    let msg = message(encode_args(&vec![Arg::Int(-3), Arg::Int(i32::MAX), Arg::Int(i32::MIN)]));
    assert_eq!(msg.signed(0), Some(-3));
    assert_eq!(msg.signed(1), Some(i32::MAX));
    assert_eq!(msg.signed(2), Some(i32::MIN));
    assert_eq!(msg.signed(3), None);
}

#[test]
fn short_messages_read_as_nothing() {
    let msg = message(vec![1, 2, 3]);
    assert_eq!(msg.unsigned(0), None);
    assert_eq!(msg.string(0), None);
}

#[test]
fn text_that_is_not_utf8_reads_as_nothing() {
    let msg = message(vec![3, 0, 0, 0, 0xff, 0xfe, 0, 0]);
    assert_eq!(msg.string(0), None);
    let fine = message(vec![3, 0, 0, 0, b'h', b'i', 0, 0]);
    assert_eq!(fine.string(0).unwrap().0, "hi");
    let wide = message(vec![3, 0, 0, 0, 0xc3, 0xa9, 0, 0]);
    assert_eq!(wide.string(0).unwrap().0, "\u{e9}");
}

#[test]
fn messages_are_built_as_told() {
    match build_message(3, 4, vec![Arg::Uint(1)]) {
        Message::Event(e) => {
            assert_eq!((e.object_id, e.op_code, e.args.len(), e.fds.len()), (3, 4, 1, 0));
        }
        _ => panic!("not an event"),
    }
    match build_message_with_fd(3, 4, vec![], 11) {
        Message::Event(e) => assert_eq!(e.fds, vec![11]),
        _ => panic!("not an event"),
    }
}

#[test]
fn requests_are_known_by_opcode() {
    let all = requests(ObjectType::WlSurface);
    assert_eq!(all.len(), 11);
    assert_eq!(all[0].name, "destroy");
    assert_eq!(all[6].name, "commit");
    assert_eq!(request_at(ObjectType::WlSurface, 1).unwrap().name, "attach");
    assert!(request_at(ObjectType::WlSurface, 11).is_none());
}

#[test]
fn numbers_are_written_out() {
    assert_eq!(decimal_text(0), "0");
    assert_eq!(decimal_text(-120), "-120");
    assert_eq!(decimal_text(i64::MIN), "-9223372036854775808");
    assert_eq!(hex_text(0xbeef), "0xbeef");
    assert_eq!(with_number("a ", 12, " b"), "a 12 b");
    assert!(same_text("abc", "abc"));
    assert!(!same_text("abc", "abd"));
    assert!(!same_text("abc", "ab"));
}
