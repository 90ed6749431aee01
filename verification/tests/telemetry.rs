use tevir::telemetry::{EventText, LogBuffer, LogLevel};

#[test]
fn retains_only_the_newest_events() {
    let mut buffer = LogBuffer::new(2);
    let mut event = EventText::new();
    event.record("message", String::from("connected"));
    event.record("peer", String::from("left"));
    buffer.push(0, LogLevel::Info, String::from("test"), event.finish());
    let mut event = EventText::new();
    event.record("message", String::from("reconnecting"));
    event.record("attempt", String::from("2"));
    buffer.push(1, LogLevel::Warn, String::from("test"), event.finish());
    let mut event = EventText::new();
    event.record("message", String::from("connection failed"));
    buffer.push(2, LogLevel::Error, String::from("test"), event.finish());

    let entries = buffer.snapshot();
    assert_eq!(entries.len(), 2);
    assert_eq!(entries[0].level, LogLevel::Warn);
    assert!(entries[0].message.contains("reconnecting"));
    assert!(entries[0].message.contains("attempt=2"));
    assert_eq!(entries[1].level, LogLevel::Error);
    assert_eq!(entries[1].sequence, 3);
}

#[test]
fn clearing_does_not_reuse_sequence_numbers() {
    let mut buffer = LogBuffer::new(2);
    buffer.push(
        0,
        LogLevel::Info,
        String::from("test"),
        String::from("first"),
    );
    buffer.clear();
    buffer.push(
        1,
        LogLevel::Info,
        String::from("test"),
        String::from("second"),
    );

    assert_eq!(buffer.snapshot()[0].sequence, 2);
}

#[test]
fn levels_have_names() {
    assert_eq!(LogLevel::Warn.as_str(), "WARN");
    assert_eq!(LogLevel::Trace.as_str(), "TRACE");
}
