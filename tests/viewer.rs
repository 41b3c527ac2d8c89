use vlt_syslogd::parser::parse_syslog_at;
use vlt_syslogd::viewer::{entry_matches, matches_filter, push_capped, MAX_KEPT};

#[test]
fn filter_matches_content_or_tag() {
    assert!(matches_filter("", "anything", None));
    assert!(matches_filter("disk", "the disk is full", None));
    assert!(matches_filter("cron", "job done", Some("cron")));
    assert!(!matches_filter("cron", "job done", Some("sshd")));
    assert!(!matches_filter("cron", "job done", None));
}

#[test]
fn entry_match_ignores_case() {
    let msg = parse_syslog_at(b"<14>CRON: Disk Full", "t".to_string());
    assert!(entry_matches("disk", &msg));
    assert!(entry_matches("cRoN", &msg));
    assert!(entry_matches("", &msg));
    assert!(!entry_matches("memory", &msg));
}

#[test]
fn log_buffer_drops_oldest_past_cap() {
    let mut logs = Vec::new();
    for i in 0..(MAX_KEPT + 3) {
        let text = format!("m{}", i);
        push_capped(&mut logs, parse_syslog_at(text.as_bytes(), "t".to_string()));
    }
    assert_eq!(logs.len(), MAX_KEPT);
    assert_eq!(logs[0].content, "m3");
    assert_eq!(logs[MAX_KEPT - 1].content, format!("m{}", MAX_KEPT + 2));
}
