use astro_server_manager::logging::{console_line, console_stream, file_line, ConsoleStream, Level, LevelFilter};
use astro_server_manager::notifications::{
    admits, capture, notification_for, EventTable, LogRecord, NotificationLevel, NotificationThreadMessage,
    NtfyBackend, NtfyPriority, NOTIFY_APP_NAME,
};

fn record(level: Level, target: &str, suppress: bool, event: Option<&str>) -> LogRecord {
    LogRecord {
        level,
        target: target.to_string(),
        message: "hello".to_string(),
        suppress_notify: suppress,
        event_id: event.map(|e| e.to_string()),
    }
}

fn ts() -> jiff::Timestamp {
    jiff::Timestamp::from_second(1_736_899_200).unwrap()
}

fn backend() -> NtfyBackend {
    let mut emojis = EventTable::new();
    emojis.insert("player_join".to_string(), "wave".to_string());
    let mut priorities = EventTable::new();
    priorities.insert("player_join".to_string(), NtfyPriority::High);
    NtfyBackend { topic: "server".to_string(), emojis, priorities }
}

fn deliver(text: &str) -> NotificationThreadMessage {
    NotificationThreadMessage::msg(text.to_string(), ts(), Level::Warn, None)
}

#[test]
fn below_threshold_records_are_not_notified() {
    assert!(notification_for(record(Level::Info, "asm", false, None), NotificationLevel::Warn, ts()).is_none());
    assert!(notification_for(record(Level::Error, "asm", false, None), NotificationLevel::Server, ts()).is_none());
    assert!(notification_for(record(Level::Warn, "asm", false, None), NotificationLevel::Warn, ts()).is_some());
    assert!(!admits(&record(Level::Debug, "asm", false, None), NotificationLevel::Info));
}

#[test]
fn server_events_pass_any_threshold() {
    let r = notification_for(record(Level::Debug, "event", false, Some("player_join")), NotificationLevel::Server, ts());
    match r {
        Some(NotificationThreadMessage::Message { message, event_id, level, timestamp }) => {
            assert_eq!(message, "hello");
            assert_eq!(event_id.as_deref(), Some("player_join"));
            assert_eq!(level, Level::Debug);
            assert_eq!(timestamp, ts());
        }
        _ => panic!("server event was not notified"),
    }
}

#[test]
fn suppressed_records_are_never_notified() {
    assert!(notification_for(record(Level::Error, "asm", true, None), NotificationLevel::Info, ts()).is_none());
    assert!(notification_for(record(Level::Error, "event", true, Some("x")), NotificationLevel::Info, ts()).is_none());
    assert!(capture(record(Level::Error, "event", true, Some("x")), NotificationLevel::Info).is_none());
}

#[test]
fn capture_takes_the_current_instant() {
    let before = jiff::Timestamp::now();
    match capture(record(Level::Error, "asm", false, None), NotificationLevel::Error) {
        Some(NotificationThreadMessage::Message { timestamp, message, .. }) => {
            assert!(timestamp >= before);
            assert_eq!(message, "hello");
        }
        _ => panic!("error was not notified"),
    }
}

#[test]
fn event_table_later_entry_wins() {
    let mut t = EventTable::new();
    assert!(t.get("a").is_none());
    t.insert("a".to_string(), 1u32);
    t.insert("b".to_string(), 2u32);
    t.insert("a".to_string(), 3u32);
    assert_eq!(t.get("a"), Some(&3));
    assert_eq!(t.get("b"), Some(&2));
    assert!(t.get("c").is_none());
}

#[test]
fn ntfy_event_with_known_id() {
    let n = backend().render("Bob joined".to_string(), Some("player_join".to_string()), Level::Info);
    assert_eq!(n.topic, "server");
    assert_eq!(n.title, "Bob joined");
    assert_eq!(n.message, NOTIFY_APP_NAME);
    assert_eq!(n.tags, vec!["wave", "AstroServerManager", "player_join"]);
    assert_eq!(n.priority, NtfyPriority::High);
}

#[test]
fn ntfy_event_with_unknown_id_uses_defaults() {
    let n = backend().render("Saved".to_string(), Some("save".to_string()), Level::Info);
    assert_eq!(n.title, "Saved");
    assert_eq!(n.tags, vec!["AstroServerManager", "save"]);
    assert_eq!(n.priority, NtfyPriority::Default);
}

#[test]
fn ntfy_levels() {
    let b = backend();
    let cases = [
        (Level::Error, "Error", NtfyPriority::Max, "error"),
        (Level::Warn, "Warning", NtfyPriority::High, "warn"),
        (Level::Info, "Information", NtfyPriority::Default, "info"),
        (Level::Debug, "Debug", NtfyPriority::Low, "debug"),
        (Level::Trace, "Trace", NtfyPriority::Min, "trash"),
    ];
    for (level, title, priority, tag) in cases {
        let n = b.render("body".to_string(), None, level);
        assert_eq!(n.title, title);
        assert_eq!(n.message, "body");
        assert_eq!(n.priority, priority);
        assert_eq!(n.tags, vec!["AstroServerManager", tag]);
    }
}

#[test]
fn worker_delivers_burst_in_order_then_stops() {
    let b = backend();
    let mut queue = vec![deliver("one"), deliver("two"), deliver("three"), NotificationThreadMessage::Stop, deliver("late")];
    queue.reverse();
    let mut sent = Vec::new();
    loop {
        let received = queue.pop();
        match b.step(received) {
            Some(n) => sent.push(n.message),
            None => break,
        }
    }
    assert_eq!(sent, vec!["one", "two", "three"]);
    assert_eq!(queue.len(), 1);
}

#[test]
fn worker_stops_on_closed_channel() {
    assert!(backend().step(None).is_none());
    assert!(backend().step(Some(NotificationThreadMessage::Stop)).is_none());
}

#[test]
fn notification_level_filters() {
    assert_eq!(NotificationLevel::default(), NotificationLevel::Server);
    assert_eq!(NotificationLevel::Server.level_filter(), LevelFilter::Off);
    assert_eq!(NotificationLevel::Error.level_filter(), LevelFilter::Error);
    assert_eq!(NotificationLevel::Warn.level_filter(), LevelFilter::Warn);
    assert_eq!(NotificationLevel::Info.level_filter(), LevelFilter::Info);
    assert!(Level::Warn.passes(LevelFilter::Info));
    assert!(!Level::Debug.passes(LevelFilter::Info));
    assert!(!Level::Error.passes(LevelFilter::Off));
}

#[test]
fn console_split_by_severity() {
    assert_eq!(console_stream(Level::Error), ConsoleStream::Stderr);
    assert_eq!(console_stream(Level::Warn), ConsoleStream::Stdout);
    assert_eq!(console_stream(Level::Trace), ConsoleStream::Stdout);
}

#[test]
fn log_line_formats() {
    assert_eq!(file_line("15.01.25/10:11:12", "asm", Level::Info, "started"), "[15.01.25/10:11:12] [asm/INFO] started");
    assert_eq!(console_line("10:11:12", "31", "asm", Level::Error, "boom"), "[10:11:12] \x1B[31m[asm/ERROR] boom\x1B[0m");
}
