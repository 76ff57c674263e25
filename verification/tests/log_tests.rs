use acpied::logbook::OperationLog;
use acpied::stamp::Stamp;
use acpied::text::{chars_to_string, str_to_chars};

fn at() -> Stamp {
    Stamp { year: 2024, month: 3, day: 7, hour: 9, minute: 5, second: 30 }
}

#[test]
fn log_line_format_is_exact() {
    let mut log = OperationLog::new();
    let line = log.append(&at(), &str_to_chars("hi"));
    assert_eq!(line, "|2024-03-07 09:05:30| hi");
}

#[test]
fn log_line_pads_two_digits() {
    let mut log = OperationLog::new();
    let st = Stamp { year: 1999, month: 12, day: 31, hour: 23, minute: 0, second: 9 };
    let line = log.append(&st, &str_to_chars("x"));
    assert_eq!(line, "|1999-12-31 23:00:09| x");
}

#[test]
fn ring_keeps_most_recent_hundred_of_150() {
    let mut log = OperationLog::new();
    let mut durable: Vec<String> = Vec::new();
    for i in 1..=150u32 {
        let msg = format!("entry {}", i);
        let line = log.append(&at(), &str_to_chars(&msg));
        durable.push(line);
    }
    // The durable sink holds all 150 lines, the ring exactly the last 100,
    // in chronological order.
    assert_eq!(durable.len(), 150);
    assert_eq!(log.len(), 100);
    let first = chars_to_string(log.entry(0));
    let last = chars_to_string(log.entry(99));
    assert_eq!(first, "|2024-03-07 09:05:30| entry 51");
    assert_eq!(last, "|2024-03-07 09:05:30| entry 150");
    for k in 0..100usize {
        assert_eq!(chars_to_string(log.entry(k)), durable[50 + k]);
    }
}

#[test]
fn ring_below_capacity_keeps_everything() {
    let mut log = OperationLog::new();
    for i in 0..10u32 {
        log.append(&at(), &str_to_chars(&format!("m{}", i)));
    }
    assert_eq!(log.len(), 10);
    assert_eq!(chars_to_string(log.entry(0)), "|2024-03-07 09:05:30| m0");
}
