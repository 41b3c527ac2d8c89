use vlt_syslogd::parser::{extract_tag, parse_syslog, parse_syslog_at};
use vlt_syslogd::severity::Severity;

const HELLO_SJIS: [u8; 10] = [0x82, 0xB1, 0x82, 0xF1, 0x82, 0xC9, 0x82, 0xBF, 0x82, 0xCD];
const HELLO_UTF8_BOM: [u8; 18] = [
    0xEF, 0xBB, 0xBF, 0xE3, 0x81, 0x93, 0xE3, 0x82, 0x93, 0xE3, 0x81, 0xAB, 0xE3, 0x81, 0xA1,
    0xE3, 0x81, 0xAF,
];

fn with_header(header: &[u8], body: &[u8]) -> Vec<u8> {
    let mut full = header.to_vec();
    full.extend_from_slice(body);
    full
}

#[test]
fn test_rfc5424_with_charset() {
    let full = with_header(b"<13>1 - - - - - [meta charset=\"Shift_JIS\"] ", &HELLO_SJIS);
    let msg = parse_syslog(&full);
    assert!(msg.content.contains("こんにちは"));
    assert_eq!(msg.encoding, "Shift_JIS (MSG-SD/BOM-Missing)");
}

#[test]
fn test_rfc5424_msg_utf8_bom() {
    let full = with_header(b"<13>1 - - - - - - ", &HELLO_UTF8_BOM);
    let msg = parse_syslog(&full);
    assert!(msg.content.contains("こんにちは"));
    assert_eq!(msg.encoding, "UTF-8 (MSG-UTF8/BOM)");
}

#[test]
fn test_rfc5424_with_sd_utf8_label() {
    let full = with_header(b"<13>1 - - - - - [meta charset=\"UTF-8\"] ", "こんにちは".as_bytes());
    let msg = parse_syslog(&full);
    assert!(msg.content.contains("こんにちは"));
    assert_eq!(msg.encoding, "UTF-8 (MSG-SD/BOM-Missing)");
}

#[test]
fn test_rfc5424_with_sd_utf8_and_bom() {
    let full = with_header(b"<13>1 - - - - - [meta charset=\"UTF-8\"] ", &HELLO_UTF8_BOM);
    let msg = parse_syslog(&full);
    assert!(msg.content.contains("こんにちは"));
    assert_eq!(msg.encoding, "UTF-8 (MSG-SD/BOM-Detected)");
}

#[test]
fn test_rfc5424_with_msg_utf8_label() {
    let full = with_header(b"<13>1 - - - - - [meta charset=\"MSG-UTF8\"] ", "こんにちは".as_bytes());
    let msg = parse_syslog(&full);
    assert!(msg.content.contains("こんにちは"));
    assert_eq!(msg.encoding, "UTF-8 (MSG-SD/BOM-Missing)");
}

#[test]
fn test_rfc3164_sjis_fallback() {
    let msg = parse_syslog(&HELLO_SJIS);
    assert!(msg.content.contains("こんにちは"));
    assert_eq!(msg.encoding, "Shift_JIS");
}

#[test]
fn shift_jis_declared_gives_exact_content_and_no_tag() {
    let full = with_header(b"<13>1 - - - - - [meta charset=\"Shift_JIS\"] ", &HELLO_SJIS);
    let msg = parse_syslog_at(&full, "t0".to_string());
    assert_eq!(msg.content, "こんにちは");
    assert_eq!(msg.severity, Severity::Notice);
    assert_eq!(msg.tag, None);
    assert_eq!(msg.hostname, None);
    assert_eq!(msg.timestamp, "t0");
}

#[test]
fn msg_utf8_label_in_lower_case_means_utf8() {
    let full = with_header(b"<13>1 - - - - - [meta charset=\"msg-utf8\"] ", "こんにちは".as_bytes());
    let msg = parse_syslog(&full);
    assert_eq!(msg.content, "こんにちは");
    assert_eq!(msg.encoding, "UTF-8 (MSG-SD/BOM-Missing)");
}

#[test]
fn legacy_message_with_clock_time_keeps_content_whole() {
    // The first colon is inside the time, and "Jan 29 10" holds spaces.
    let msg = parse_syslog(b"<14>Jan 29 10:50:00 host tag: hello");
    assert_eq!(msg.severity, Severity::Informational);
    assert_eq!(msg.tag, None);
    assert_eq!(msg.content, "Jan 29 10:50:00 host tag: hello");
    assert_eq!(msg.encoding, "UTF-8");
}

#[test]
fn legacy_message_tag_is_split_off() {
    let msg = parse_syslog(b"<14>tag: hello");
    assert_eq!(msg.tag.as_deref(), Some("tag"));
    assert_eq!(msg.content, "hello");
}

#[test]
fn rfc5424_body_is_never_split_for_a_tag() {
    let msg = parse_syslog(b"<13>1 2024-01-01T00:00:00Z host app 1 id - tag: hello");
    assert_eq!(msg.tag, None);
    assert_eq!(msg.content, "tag: hello");
    assert_eq!(msg.encoding, "UTF-8 (Implicit)");
}

#[test]
fn rfc5424_invalid_utf8_without_declaration_is_guessed() {
    let full = with_header(b"<13>1 - - - - - - ", &HELLO_SJIS);
    let msg = parse_syslog(&full);
    assert_eq!(msg.content, "こんにちは");
    assert_eq!(msg.encoding, "Shift_JIS (Guess)");
}

#[test]
fn unknown_charset_label_falls_through_to_implicit_utf8() {
    let msg = parse_syslog(b"<13>1 - - - - - [meta charset=\"no-such-charset\"] hi");
    assert_eq!(msg.content, "hi");
    assert_eq!(msg.encoding, "UTF-8 (Implicit)");
}

#[test]
fn unbalanced_sd_leaves_cursor_at_bracket() {
    let msg = parse_syslog(b"<13>1 - - - - - [meta charset=\"Shift_JIS\" x");
    assert_eq!(msg.content, "[meta charset=\"Shift_JIS\" x");
    assert_eq!(msg.encoding, "UTF-8 (Implicit)");
}

#[test]
fn empty_input_is_empty_informational() {
    let msg = parse_syslog(b"");
    assert_eq!(msg.severity, Severity::Informational);
    assert_eq!(msg.content, "");
    assert_eq!(msg.encoding, "Empty");
    assert_eq!(msg.raw, "");
}

#[test]
fn severity_defaults_without_valid_pri() {
    assert_eq!(parse_syslog(b"hello").severity, Severity::Informational);
    assert_eq!(parse_syslog(b"<256>x").severity, Severity::Informational);
    assert_eq!(parse_syslog(b"<x>y").severity, Severity::Informational);
    assert_eq!(parse_syslog(b"<11").severity, Severity::Informational);
}

#[test]
fn pri_accepts_a_plus_sign_and_leading_zeros() {
    assert_eq!(parse_syslog(b"<+11>x").severity, Severity::Error);
    assert_eq!(parse_syslog(b"<0011>x").severity, Severity::Error);
    assert_eq!(parse_syslog(b"<255>x").severity, Severity::Debug);
}

#[test]
fn legacy_bom_body_is_utf8() {
    let msg = parse_syslog(&HELLO_UTF8_BOM);
    assert_eq!(msg.content, "こんにちは");
    assert_eq!(msg.encoding, "UTF-8 (BOM)");
}

#[test]
fn raw_is_lower_case_hex_of_the_input() {
    let msg = parse_syslog(b"<1>\xff\x0a");
    assert_eq!(msg.raw, "3c313eff0a");
}

#[test]
fn raw_hex_decodes_back_to_input() {
    let inputs: Vec<Vec<u8>> = vec![
        with_header(b"<13>1 - - - - - - ", &HELLO_UTF8_BOM),
        HELLO_SJIS.to_vec(),
        vec![0, 255, 128, 60, 62],
        Vec::new(),
    ];
    for input in inputs {
        let msg = parse_syslog(&input);
        assert_eq!(hex::decode(&msg.raw).unwrap(), input);
    }
}

#[test]
fn reparsing_raw_gives_same_content_and_encoding() {
    let inputs: Vec<Vec<u8>> = vec![
        with_header(b"<13>1 - - - - - [meta charset=\"Shift_JIS\"] ", &HELLO_SJIS),
        HELLO_SJIS.to_vec(),
        b"<14>tag: hello".to_vec(),
    ];
    for input in inputs {
        let first = parse_syslog(&input);
        let again = parse_syslog(&hex::decode(&first.raw).unwrap());
        assert_eq!(again.content, first.content);
        assert_eq!(again.encoding, first.encoding);
        assert_eq!(again.tag, first.tag);
    }
}

#[test]
fn truncated_and_odd_buffers_all_parse() {
    let full = with_header(b"<13>1 - - - - - [meta charset=\"Shift_JIS\"] ", &HELLO_SJIS);
    for n in 0..=full.len() {
        let msg = parse_syslog(&full[..n]);
        assert_eq!(hex::decode(&msg.raw).unwrap(), full[..n].to_vec());
    }
    let odd: [&[u8]; 8] = [b"<", b"<>", b"<13>", b"<13>1", b"<13>1 ", b"[[[", b"]]]", b"<1>9 - - - - - [a]]"];
    for input in odd {
        let msg = parse_syslog(input);
        assert_eq!(msg.raw, hex::encode(input));
    }
    let mut seed: u32 = 12345;
    for _ in 0..200 {
        let mut buf = Vec::new();
        for _ in 0..(seed % 64) {
            seed = seed.wrapping_mul(1103515245).wrapping_add(12345);
            buf.push((seed >> 16) as u8);
        }
        let msg = parse_syslog(&buf);
        assert_eq!(hex::decode(&msg.raw).unwrap(), buf);
    }
}

#[test]
fn space_after_nil_sd_is_skipped_once() {
    let msg = parse_syslog(b"<13>1 - - - - - -  two spaces");
    assert_eq!(msg.content, "two spaces");
}

#[test]
fn extract_tag_trims_both_sides() {
    let (tag, content) = extract_tag("  app :  started  ");
    assert_eq!(tag.as_deref(), Some("app"));
    assert_eq!(content, "started");
}

#[test]
fn extract_tag_rejects_words_with_spaces_and_empty_tags() {
    let (tag, content) = extract_tag("two words: x");
    assert_eq!(tag, None);
    assert_eq!(content, "two words: x");
    let (tag, content) = extract_tag("  : x");
    assert_eq!(tag, None);
    assert_eq!(content, "  : x");
    let (tag, content) = extract_tag("no colon");
    assert_eq!(tag, None);
    assert_eq!(content, "no colon");
}

#[test]
fn extract_tag_uses_unicode_white_space() {
    let (tag, content) = extract_tag("\u{3000}app\u{a0}:\u{2003}hi\t");
    assert_eq!(tag.as_deref(), Some("app"));
    assert_eq!(content, "hi");
}
