use wideval::console::{ConsoleLog, LogEntry, LOG_CAPACITY};

fn is_clock_stamp(s: &str) -> bool {
    let b = s.as_bytes();
    if b.len() != 8 || b[2] != b':' || b[5] != b':' {
        return false;
    }
    let two = |at: usize| -> Option<u32> {
        if b[at].is_ascii_digit() && b[at + 1].is_ascii_digit() {
            Some(((b[at] - b'0') as u32) * 10 + (b[at + 1] - b'0') as u32)
        } else {
            None
        }
    };
    matches!((two(0), two(3), two(6)), (Some(h), Some(m), Some(s)) if h <= 23 && m <= 59 && s <= 60)
}

#[test]
fn capacity_is_one_hundred() {
    assert_eq!(LOG_CAPACITY, 100);
}

#[test]
fn record_keeps_stamp_and_message() {
    let mut log = ConsoleLog::new();
    assert_eq!(log.len(), 0);
    log.record("12:34:56".to_string(), "hello".to_string());
    log.record("23:59:60".to_string(), "".to_string());
    assert_eq!(log.len(), 2);
    assert_eq!(log.lines(), vec!["[12:34:56] hello", "[23:59:60] "]);
}

#[test]
fn entry_renders_with_brackets() {
    let e = LogEntry { stamp: "00:00:00".to_string(), message: "x y".to_string() };
    assert_eq!(e.render(), "[00:00:00] x y");
}

#[test]
fn the_hundred_and_first_entry_evicts_the_oldest() {
    let mut log = ConsoleLog::new();
    for i in 0..100 {
        log.record("00:00:00".to_string(), format!("m{}", i));
        assert_eq!(log.len(), i + 1);
    }
    assert_eq!(log.lines()[0], "[00:00:00] m0");
    log.record("00:00:01".to_string(), "m100".to_string());
    assert_eq!(log.len(), 100);
    let lines = log.lines();
    assert_eq!(lines[0], "[00:00:00] m1");
    assert_eq!(lines[98], "[00:00:00] m99");
    assert_eq!(lines[99], "[00:00:01] m100");
    for i in 101..350 {
        log.record("00:00:02".to_string(), format!("m{}", i));
        assert_eq!(log.len(), 100);
    }
    let lines = log.lines();
    assert_eq!(lines[0], "[00:00:02] m250");
    assert_eq!(lines[99], "[00:00:02] m349");
}

#[test]
fn log_stamps_with_the_time_of_day() {
    let mut log = ConsoleLog::new();
    log.log("first".to_string());
    log.log("second".to_string());
    let lines = log.lines();
    assert_eq!(lines.len(), 2);
    for (line, message) in lines.iter().zip(["first", "second"]) {
        assert_eq!(line.len(), 11 + message.len());
        assert_eq!(&line[0..1], "[");
        assert!(is_clock_stamp(&line[1..9]), "bad stamp in {:?}", line);
        assert_eq!(&line[9..11], "] ");
        assert_eq!(&line[11..], message);
    }
}

#[test]
fn log_all_appends_in_order_and_keeps_the_newest() {
    let mut log = ConsoleLog::new();
    for i in 0..99 {
        log.record("01:02:03".to_string(), format!("old{}", i));
    }
    log.log_all(&vec!["a".to_string(), "b".to_string(), "c".to_string()]);
    let lines = log.lines();
    assert_eq!(lines.len(), 100);
    assert_eq!(lines[0], "[01:02:03] old2");
    assert_eq!(lines[96], "[01:02:03] old98");
    assert!(lines[97].ends_with("] a") && is_clock_stamp(&lines[97][1..9]));
    assert!(lines[98].ends_with("] b") && is_clock_stamp(&lines[98][1..9]));
    assert!(lines[99].ends_with("] c") && is_clock_stamp(&lines[99][1..9]));
    log.log_all(&Vec::new());
    assert_eq!(log.lines(), lines);
}

#[test]
fn clear_empties_the_console() {
    let mut log = ConsoleLog::new();
    log.record("00:00:00".to_string(), "x".to_string());
    log.clear();
    assert_eq!(log.len(), 0);
    assert!(log.lines().is_empty());
    log.record("00:00:00".to_string(), "y".to_string());
    assert_eq!(log.lines(), vec!["[00:00:00] y"]);
}
