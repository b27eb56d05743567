use hotfix::calendar::LocalTime;
use hotfix::decimal::{format_u64, parse_u64, text_with_number};
use hotfix::error::{MessageVerificationError, SessionError};
use hotfix::session::error::SessionGone;
use hotfix::message::parser::decode;
use hotfix::message::Message;
use hotfix::store::file_format::{
    index_line, initial_seqnums, parse_index_line, parse_seqnums, parse_session_time, seqnums_text,
    session_time_text, MessageDef,
    MessageIndex,
};
use hotfix::store::in_memory::InMemoryMessageStore;
use hotfix::store::MessageStore;
use hotfix::transport::{frame_status_of, FrameStatus, Parser};

fn sample(seq: u64) -> Vec<u8> {
    let mut msg = Message::new("FIX.4.4", "0");
    msg.header_set(49, b"SENDER".to_vec());
    msg.header_set(56, b"TARGET".to_vec());
    msg.header_set(34, format_u64(seq));
    msg.encode()
}

#[test]
fn decimal_text_and_back() {
    assert_eq!(format_u64(0), b"0".to_vec());
    assert_eq!(format_u64(1234567890), b"1234567890".to_vec());
    assert_eq!(format_u64(u64::MAX), b"18446744073709551615".to_vec());
    assert_eq!(parse_u64(b"18446744073709551615"), Some(u64::MAX));
    assert_eq!(parse_u64(b"18446744073709551616"), None);
    assert_eq!(parse_u64(b""), None);
    assert_eq!(parse_u64(b"12a"), None);
    assert_eq!(parse_u64(b"007"), Some(7));
    assert_eq!(text_with_number("TEST_", 42), "TEST_42");
}

#[test]
fn seqnums_file_round_trip() {
    let text = seqnums_text(5, 7);
    assert_eq!(
        text,
        b"00000000000000000005 : 00000000000000000007".to_vec()
    );
    assert_eq!(parse_seqnums(&text), Some((5, 7)));
    assert_eq!(parse_seqnums(b"  12:34 \n"), Some((12, 34)));
    assert_eq!(parse_seqnums(b"12"), None);
    assert_eq!(parse_seqnums(b"1:2:3"), None);
    assert_eq!(parse_seqnums(b"x:2"), None);
}

#[test]
fn initial_seqnums_of_missing_blank_and_bad_files() {
    assert_eq!(initial_seqnums(None), Some((0, 0)));
    assert_eq!(initial_seqnums(Some(b"  \n")), Some((0, 0)));
    assert_eq!(initial_seqnums(Some(b"3 : 4")), Some((3, 4)));
    assert_eq!(initial_seqnums(Some(b"garbage")), None);
}

#[test]
fn index_lines_round_trip() {
    let line = index_line(3, 120, 64);
    assert_eq!(line, b"3,120,64\n".to_vec());
    assert_eq!(parse_index_line(&line), Some((3, 120, 64)));
    assert_eq!(parse_index_line(b"3,120"), None);
    assert_eq!(parse_index_line(b"3,a,64"), None);
}

#[test]
fn index_load_keeps_the_last_record_and_skips_bad_lines() {
    let content = b"1,0,10\nnot a line\n2,10,20\n1,30,5\n";
    let index = MessageIndex::load(content);
    assert_eq!(index.get(1), Some(MessageDef { offset: 30, size: 5 }));
    assert_eq!(index.get(2), Some(MessageDef { offset: 10, size: 20 }));
    assert_eq!(index.get(3), None);
    assert_eq!(
        index.locations(1, 3),
        vec![MessageDef { offset: 30, size: 5 }, MessageDef { offset: 10, size: 20 }]
    );
    assert_eq!(index.locations(3, 1), vec![]);
}

#[test]
fn index_insert_then_get() {
    let mut index = MessageIndex::new();
    index.insert(9, MessageDef { offset: 1, size: 2 });
    index.insert(9, MessageDef { offset: 3, size: 4 });
    assert_eq!(index.get(9), Some(MessageDef { offset: 3, size: 4 }));
}

#[test]
fn frame_status_of_prefixes() {
    let msg = sample(1);
    assert_eq!(frame_status_of(&msg), FrameStatus::Complete(msg.len()));
    assert_eq!(frame_status_of(&msg[..msg.len() - 1]), FrameStatus::Incomplete);
    assert_eq!(frame_status_of(b""), FrameStatus::Incomplete);
    assert_eq!(frame_status_of(b"9=5\x01"), FrameStatus::Malformed);
    assert_eq!(frame_status_of(b"8=FIX.4.4\x019=x\x01"), FrameStatus::Malformed);
}

#[test]
fn parser_splits_messages_in_one_read() {
    let a = sample(1);
    let b = sample(2);
    let mut data = a.clone();
    data.extend_from_slice(&b);
    let mut parser = Parser::new();
    assert_eq!(parser.parse(&data), vec![a, b]);
}

#[test]
fn parser_keeps_a_partial_message_until_it_completes() {
    let a = sample(7);
    let mut parser = Parser::new();
    let (head, tail) = a.split_at(10);
    assert!(parser.parse(head).is_empty());
    assert_eq!(parser.parse(tail), vec![a]);
}

#[test]
fn parser_skips_garbage_before_a_message() {
    let a = sample(3);
    let mut data = b"xx".to_vec();
    data.extend_from_slice(&a);
    let mut parser = Parser::new();
    assert_eq!(parser.parse(&data), vec![a]);
}

#[test]
fn parser_gives_the_same_messages_byte_by_byte() {
    let a = sample(4);
    let b = sample(5);
    let mut data = a.clone();
    data.extend_from_slice(&b);
    let mut parser = Parser::new();
    let mut out = Vec::new();
    for byte in &data {
        out.extend(parser.parse(&[*byte]));
    }
    assert_eq!(out, vec![a, b]);
}

#[test]
fn in_memory_store_slices_and_sequence_numbers() {
    let mut store = InMemoryMessageStore::new(1000);
    assert_eq!(store.next_sender_seq_number(), 1);
    assert_eq!(store.next_target_seq_number(), 1);
    assert_eq!(store.creation_time(), 1000);
    store.add(1, b"one").unwrap();
    store.add(2, b"two").unwrap();
    store.add(3, b"three").unwrap();
    assert_eq!(store.get_slice(2, 3).unwrap(), vec![b"two".to_vec(), b"three".to_vec()]);
    assert_eq!(store.get_slice(4, 9).unwrap(), Vec::<Vec<u8>>::new());
    store.increment_sender_seq_number().unwrap();
    store.increment_target_seq_number().unwrap();
    assert_eq!(store.next_sender_seq_number(), 2);
    assert_eq!(store.next_target_seq_number(), 2);
    store.set_target_seq_number(10).unwrap();
    assert_eq!(store.next_target_seq_number(), 11);
    store.reset(2000).unwrap();
    assert_eq!(store.next_sender_seq_number(), 1);
    assert_eq!(store.next_target_seq_number(), 1);
    assert_eq!(store.creation_time(), 2000);
    assert_eq!(store.get_slice(1, 3).unwrap(), Vec::<Vec<u8>>::new());
}

fn order_message() -> Message {
    let mut msg = Message::new("FIX.4.4", "D");
    msg.header_set(49, b"SENDER".to_vec());
    msg.header_set(56, b"TARGET".to_vec());
    msg.header_set(34, b"12".to_vec());
    msg.set(11, b"ORDER-1".to_vec());
    msg.set(55, b"A=B".to_vec());
    msg
}

#[test]
fn decode_reads_back_an_encoding() {
    let msg = order_message();
    let bytes = msg.encode();
    let decoded = decode(&bytes).expect("a readable message decodes");
    assert_eq!(decoded.begin_string, b"FIX.4.4".to_vec());
    assert_eq!(decoded.msg_type, b"D".to_vec());
    assert_eq!(decoded.header_get(49), Some(&b"SENDER".to_vec()));
    assert_eq!(decoded.header_get(34), Some(&b"12".to_vec()));
    assert_eq!(decoded.get(11), Some(&b"ORDER-1".to_vec()));
    assert_eq!(decoded.get(55), Some(&b"A=B".to_vec()));
    assert_eq!(decoded.header.len(), 3);
    assert_eq!(decoded.body.len(), 2);
    assert_eq!(decoded.encode(), bytes);
}

#[test]
fn decode_exact_bytes_of_a_heartbeat() {
    let bytes = b"8=FIX.4.4\x019=5\x0135=0\x0110=163\x01";
    let decoded = decode(bytes).expect("valid heartbeat");
    assert_eq!(decoded.msg_type, b"0".to_vec());
    assert!(decoded.header.is_empty() && decoded.body.is_empty());
    assert_eq!(decoded.encode(), bytes.to_vec());
}

#[test]
fn decode_refuses_a_wrong_checksum() {
    let mut bytes = order_message().encode();
    let n = bytes.len();
    bytes[n - 2] = if bytes[n - 2] == b'0' { b'1' } else { b'0' };
    assert!(decode(&bytes).is_none());
}

#[test]
fn decode_refuses_a_wrong_body_length() {
    assert!(decode(b"8=FIX.4.4\x019=6\x0135=0\x0110=164\x01").is_none());
}

#[test]
fn decode_refuses_a_missing_final_separator() {
    assert!(decode(b"8=FIX.4.4\x019=5\x0135=0\x0110=163").is_none());
}

#[test]
fn decode_refuses_fields_out_of_order() {
    assert!(decode(b"9=5\x018=FIX.4.4\x0135=0\x0110=163\x01").is_none());
    assert!(decode(b"").is_none());
}

#[test]
fn decode_puts_header_tags_after_the_body_into_the_body() {
    let mut msg = Message::new("FIX.4.4", "D");
    msg.header_set(49, b"S".to_vec());
    msg.set(11, b"X".to_vec());
    msg.set(52, b"T".to_vec());
    let decoded = decode(&msg.encode()).expect("readable");
    assert_eq!(decoded.header.len(), 1);
    assert_eq!(decoded.body.len(), 2);
}

#[test]
fn session_file_time_round_trip() {
    assert_eq!(parse_session_time(b"2024-01-02T03:04:05+00:00\n"), Some(1704164645));
    assert_eq!(parse_session_time(b"  2024-01-02T04:04:05+01:00 "), Some(1704164645));
    assert_eq!(parse_session_time(b"yesterday"), None);
    assert_eq!(session_time_text(1704164645), Some("2024-01-02T03:04:05+00:00".to_string()));
    let text = session_time_text(0).unwrap();
    assert_eq!(parse_session_time(text.as_bytes()), Some(0));
}

#[test]
fn admin_message_types() {
    for t in ["0", "1", "2", "3", "4", "5", "A"] {
        assert!(hotfix::message::is_admin(t), "{t} is admin");
    }
    for t in ["D", "8", "j", "", "AA", "6"] {
        assert!(!hotfix::message::is_admin(t), "{t} is not admin");
    }
}

#[test]
fn pop_removes_the_first_field_with_the_tag() {
    let mut msg = Message::new("FIX.4.4", "D");
    msg.set(11, b"A".to_vec());
    msg.set(55, b"B".to_vec());
    assert_eq!(msg.pop(11), Some(b"A".to_vec()));
    assert_eq!(msg.pop(11), None);
    assert_eq!(msg.get(55), Some(&b"B".to_vec()));
}

#[test]
fn generated_messages_carry_the_standard_header() {
    let hb = hotfix::message::heartbeat::Heartbeat::for_request("T1".to_string());
    let bytes = hotfix::message::generate_message("FIX.4.4", "ME", "YOU", 7, &hb).unwrap();
    let msg = decode(&bytes).expect("generated message decodes");
    assert_eq!(msg.msg_type, b"0".to_vec());
    assert_eq!(msg.header_get(49), Some(&b"ME".to_vec()));
    assert_eq!(msg.header_get(56), Some(&b"YOU".to_vec()));
    assert_eq!(msg.header_get(34), Some(&b"7".to_vec()));
    assert_eq!(msg.header_get(52).map(|v| v.len()), Some(21));
    assert_eq!(msg.get(112), Some(&b"T1".to_vec()));
}

#[test]
fn times_of_day_stay_within_a_day() {
    assert_eq!(LocalTime::from_seconds(86_399).map(|t| t.num_seconds_from_midnight()), Some(86_399));
    assert!(LocalTime::from_seconds(86_400).is_none());
    assert!(LocalTime::from_hms(24, 0, 0).is_none());
    assert_eq!(LocalTime::from_hms(1, 2, 3).map(|t| t.num_seconds_from_midnight()), Some(3723));
}

#[test]
fn error_descriptions() {
    assert_eq!(
        MessageVerificationError::SeqNumberTooLow { expected: 5, actual: 3 }.describe(),
        "sequence number too low (expected 5, actual 3)"
    );
    assert_eq!(
        MessageVerificationError::SeqNumberTooHigh { expected: 5, actual: 9 }.describe(),
        "sequence number too high (expected 5, actual 9)"
    );
    assert_eq!(
        MessageVerificationError::IncorrectBeginString("FIX.4.2".to_string()).describe(),
        "incorrect begin string FIX.4.2"
    );
    assert_eq!(
        MessageVerificationError::IncorrectCompId("X".to_string()).describe(),
        "incorrect comp id X"
    );
    assert_eq!(
        SessionError::InvalidSchedule("bad".to_string()).describe(),
        "Schedule configuration is invalid: bad"
    );
    assert_eq!(SessionGone("closed".to_string()).describe(), "session task terminated");
}
