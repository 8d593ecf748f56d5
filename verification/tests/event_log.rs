use rcc_core::event_log::{chat_line, EventLog, LOG_CAPACITY};

#[test]
fn the_log_holds_ten_lines() {
    assert_eq!(LOG_CAPACITY, 10);
}

#[test]
fn a_chat_line_names_the_actor() {
    assert_eq!(chat_line("p1", "hello"), "p1: hello");
    assert_eq!(chat_line("", ""), ": ");
    assert_eq!(chat_line("User007", "gg: wp"), "User007: gg: wp");
}

#[test]
fn lines_come_out_oldest_first() {
    let mut log = EventLog::new();
    assert_eq!(log.len(), 0);
    assert!(log.lines().is_empty());
    log.push("one".to_string());
    log.push("two".to_string());
    assert_eq!(log.len(), 2);
    assert_eq!(log.lines(), vec!["one".to_string(), "two".to_string()]);
    assert_eq!(log.line(0), Some("one".to_string()));
    assert_eq!(log.line(1), Some("two".to_string()));
    assert_eq!(log.line(2), None);
}

#[test]
fn a_full_log_stays_as_it_is_until_the_next_line() {
    let mut log = EventLog::new();
    let mut i = 0;
    while i < 10 {
        log.push(format!("line {}", i));
        i += 1;
    }
    assert_eq!(log.len(), 10);
    assert_eq!(log.line(0), Some("line 0".to_string()));
    assert_eq!(log.line(9), Some("line 9".to_string()));
}

#[test]
fn the_oldest_line_leaves_first() {
    let mut log = EventLog::new();
    let mut i = 0;
    while i < 12 {
        log.push(format!("line {}", i));
        assert!(log.len() <= LOG_CAPACITY);
        i += 1;
    }
    assert_eq!(log.len(), 10);
    let expected: Vec<String> = (2..12).map(|i| format!("line {}", i)).collect();
    assert_eq!(log.lines(), expected);
    log.push(chat_line("p1", "hi"));
    assert_eq!(log.len(), 10);
    assert_eq!(log.line(0), Some("line 3".to_string()));
    assert_eq!(log.line(9), Some("p1: hi".to_string()));
}

#[test]
fn the_log_never_grows_past_its_cap() {
    let mut log = EventLog::new();
    let mut i = 0;
    while i < 1000 {
        log.push(format!("{}", i));
        assert!(log.len() <= 10);
        assert_eq!(log.len(), std::cmp::min(i + 1, 10));
        i += 1;
    }
    assert_eq!(log.line(0), Some("990".to_string()));
    assert_eq!(log.line(9), Some("999".to_string()));
}
