use netmd::logbuf::{level_enabled, level_to_usize, usize_to_filter, LevelControl, LogBuffer, LogEntry, LogFilter, LogLevel, CAPACITY};

fn entry(n: usize) -> LogEntry {
    LogEntry { level: LogLevel::Info, target: "t".to_string(), message: format!("m{n}") }
}

#[test]
fn buffer_keeps_the_latest_entries() {
    let mut b = LogBuffer::new();
    for i in 0..CAPACITY + 5 {
        b.push(entry(i));
    }
    assert_eq!(b.len(), CAPACITY);
    let snap = b.snapshot(3);
    let msgs: Vec<_> = snap.iter().map(|e| e.message.clone()).collect();
    assert_eq!(msgs, vec![format!("m{}", CAPACITY + 2), format!("m{}", CAPACITY + 3), format!("m{}", CAPACITY + 4)]);
    let all = b.snapshot(usize::MAX);
    assert_eq!(all.len(), CAPACITY);
    assert_eq!(all[0].message, "m5");
}

#[test]
fn snapshot_of_small_buffer_is_everything() {
    let mut b = LogBuffer::new();
    b.push(entry(1));
    b.push(entry(2));
    let snap = b.snapshot(10);
    assert_eq!(snap.len(), 2);
    assert_eq!(snap[0].message, "m1");
    assert_eq!(b.snapshot(0).len(), 0);
}

#[test]
fn filters_round_trip_through_their_rank() {
    for f in [LogFilter::Off, LogFilter::Error, LogFilter::Warn, LogFilter::Info, LogFilter::Debug, LogFilter::Trace] {
        assert_eq!(usize_to_filter(level_to_usize(f)), f);
    }
    assert_eq!(usize_to_filter(42), LogFilter::Trace);
}

#[test]
fn level_control_reads_back_what_was_set() {
    let mut c = LevelControl::new(LogFilter::Info);
    assert_eq!(c.get(), LogFilter::Info);
    c.set(LogFilter::Debug);
    assert_eq!(c.get(), LogFilter::Debug);
}

#[test]
fn filters_let_through_levels_up_to_theirs() {
    assert!(level_enabled(LogLevel::Error, LogFilter::Error));
    assert!(!level_enabled(LogLevel::Warn, LogFilter::Error));
    assert!(level_enabled(LogLevel::Debug, LogFilter::Trace));
    assert!(!level_enabled(LogLevel::Error, LogFilter::Off));
}
