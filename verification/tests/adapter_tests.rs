use substream_adapter::block::{Block, LogEntry};
use substream_adapter::events::{LogText, LogTextBatch, RawLog, TopicLog};
use substream_adapter::{decode_filter, format_hex, DecodeError, FromBlock, FromEvent, Mapper, StringW};

fn entry(address: Vec<u8>, topics: Vec<Vec<u8>>, data: Vec<u8>) -> LogEntry {
    LogEntry { address, topics, data }
}

fn three_log_block() -> Block {
    // addresses X, Y, X in that order
    Block {
        logs: vec![
            entry(vec![0x11, 0x22], vec![], vec![0x01]),
            entry(vec![0x33, 0x44], vec![], vec![0x02]),
            entry(vec![0x11, 0x22], vec![], vec![0x03]),
        ],
    }
}

#[test]
fn format_hex_fixed_mapping() {
    assert_eq!(format_hex(&[0xAB, 0xCD]), "0xabcd");
}

#[test]
fn format_hex_empty() {
    assert_eq!(format_hex(&[]), "0x");
}

#[test]
fn format_hex_leading_zero_byte() {
    assert_eq!(format_hex(&[0x00, 0xFF]), "0x00ff");
}

#[test]
fn decode_round_trip() {
    let text = format_hex(&[0xAB, 0xCD]);
    assert_eq!(decode_filter(&text), Ok(vec![0xAB, 0xCD]));
}

#[test]
fn decode_without_prefix() {
    assert_eq!(decode_filter("6e8b"), Ok(vec![0x6E, 0x8B]));
}

#[test]
fn decode_uppercase_digits() {
    assert_eq!(decode_filter("0xAB"), Ok(vec![0xAB]));
}

#[test]
fn decode_empty_forms() {
    assert_eq!(decode_filter(""), Ok(vec![]));
    assert_eq!(decode_filter("0x"), Ok(vec![]));
}

#[test]
fn decode_rejects_stray_character() {
    assert_eq!(decode_filter("0xzz"), Err(DecodeError::InvalidFilter));
}

#[test]
fn decode_rejects_odd_length() {
    assert_eq!(decode_filter("0xabc"), Err(DecodeError::InvalidFilter));
    assert_eq!(decode_filter("a"), Err(DecodeError::InvalidFilter));
}

#[test]
fn from_block_keeps_order_without_filter() {
    let events = RawLog::from_block(three_log_block(), None).unwrap();
    assert_eq!(events.len(), 3);
    assert_eq!(events[0].data, vec![0x01]);
    assert_eq!(events[1].data, vec![0x02]);
    assert_eq!(events[2].data, vec![0x03]);
}

#[test]
fn from_block_filters_by_address() {
    let events = RawLog::from_block(three_log_block(), Some("0x1122")).unwrap();
    assert_eq!(events.len(), 2);
    assert_eq!(events[0].address, vec![0x11, 0x22]);
    assert_eq!(events[0].data, vec![0x01]);
    assert_eq!(events[1].address, vec![0x11, 0x22]);
    assert_eq!(events[1].data, vec![0x03]);
}

#[test]
fn from_block_filter_without_match_is_empty() {
    let events = RawLog::from_block(three_log_block(), Some("0x9999")).unwrap();
    assert_eq!(events.len(), 0);
}

#[test]
fn from_block_invalid_filter_fails() {
    let r = RawLog::from_block(three_log_block(), Some("not-hex"));
    assert!(matches!(r, Err(DecodeError::InvalidFilter)));
}

#[test]
fn topic_log_skips_entries_without_topics() {
    let block = Block {
        logs: vec![
            entry(vec![0x01], vec![vec![0xAA, 0xBB]], vec![]),
            entry(vec![0x02], vec![], vec![]),
            entry(vec![0x03], vec![vec![0xCC]], vec![]),
        ],
    };
    let events = TopicLog::from_block(block, None).unwrap();
    assert_eq!(events.len(), 2);
    assert_eq!(events[0].topic, vec![0xAA, 0xBB]);
    assert_eq!(events[0].address, vec![0x01]);
    assert_eq!(events[1].topic, vec![0xCC]);
    assert_eq!(events[1].address, vec![0x03]);
}

#[test]
fn map_scenario_filter_first_and_third() {
    // block with three log entries at addresses X, Y, X; filter = X
    let batch = match LogTextBatch::map(three_log_block(), Some("0x1122")) {
        Ok(b) => b,
        Err(_) => panic!("mapping failed on a valid filter"),
    };
    assert_eq!(batch.messages.len(), 2);
    let mut texts = Vec::new();
    for m in batch.messages {
        texts.push((m.address.into_string(), m.data.into_string()));
    }
    assert_eq!(texts[0], ("0x1122".to_string(), "0x01".to_string()));
    assert_eq!(texts[1], ("0x1122".to_string(), "0x03".to_string()));
}

#[test]
fn map_without_filter_converts_all() {
    let batch = match LogTextBatch::map(three_log_block(), None) {
        Ok(b) => b,
        Err(_) => panic!("mapping failed without a filter"),
    };
    assert_eq!(batch.messages.len(), 3);
}

#[test]
fn map_invalid_filter_yields_error_and_no_batch() {
    let r = LogTextBatch::map(three_log_block(), Some("0xnope"));
    assert!(matches!(r, Err(DecodeError::InvalidFilter)));
}

#[test]
fn map_twice_yields_identical_batches() {
    let b1 = match LogTextBatch::map(three_log_block(), Some("0x1122")) {
        Ok(b) => b,
        Err(_) => panic!("first mapping failed"),
    };
    let b2 = match LogTextBatch::map(three_log_block(), Some("0x1122")) {
        Ok(b) => b,
        Err(_) => panic!("second mapping failed"),
    };
    assert_eq!(b1.messages.len(), b2.messages.len());
    for (m1, m2) in b1.messages.into_iter().zip(b2.messages.into_iter()) {
        assert_eq!(m1.address.into_string(), m2.address.into_string());
        assert_eq!(m1.data.into_string(), m2.data.into_string());
    }
}

#[test]
fn from_event_accepts_nonempty_topic() {
    let event = TopicLog { topic: vec![0xAA], address: vec![0x01] };
    let message = LogText::from_event(event);
    let m = match message {
        Some(m) => m,
        None => panic!("a topic-bearing event was rejected"),
    };
    assert_eq!(m.address.into_string(), "0x01");
    assert_eq!(m.data.into_string(), "0xaa");
}

#[test]
fn from_event_rejects_empty_topic() {
    let event = TopicLog { topic: vec![], address: vec![0x01] };
    assert!(LogText::from_event(event).is_none());
}

#[test]
fn string_w_from_bytes() {
    let w = StringW::from_bytes(vec![0x00, 0xFF]);
    assert_eq!(w.into_string(), "0x00ff");
}

#[test]
fn string_w_from_big_int() {
    let w = StringW::from_big_int(substreams::scalar::BigInt::from(12345u64));
    assert_eq!(w.into_string(), "12345");
}

#[test]
fn string_w_from_negative_big_int() {
    let w = StringW::from_big_int(substreams::scalar::BigInt::from(-7i64));
    assert_eq!(w.into_string(), "-7");
}

#[test]
fn string_w_from_zero_big_int() {
    let w = StringW::from_big_int(substreams::scalar::BigInt::from(0u64));
    assert_eq!(w.into_string(), "0");
}
