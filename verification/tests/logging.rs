use ina::logging::{
    default_queue_capacity, default_queue_duration, Action, Entry, Level, LogError, Logger, Request, Settings, Timestamp,
};

fn settings(queue_capacity: usize, quiet: bool) -> Settings {
    Settings { directory: "logs".to_owned(), queue_capacity, queue_duration: default_queue_duration(), quiet }
}

fn entry(content: &str) -> Entry {
    Entry::new(Timestamp::new(0, 0).unwrap(), Level::info(), content.to_owned())
}

#[test]
fn levels_display() {
    assert_eq!(Level::debug().display(), "(debug)");
    assert_eq!(Level::error().display(), "(error)");
    assert!(Level::error().error);
    assert!(!Level::info().error);
    assert_eq!(Level::warn().name, "warn");
}

#[test]
fn entry_display() {
    assert_eq!(entry("started").display(), "[1970-01-01T00:00:00.000000000Z] (info) started");
}

#[test]
fn timestamp_formats_iso8601() {
    let t = Timestamp::new(1_546_300_800_000_000_000, 7200).unwrap();
    assert_eq!(t.display(), "[2019-01-01T02:00:00.000000000+02:00]");
    assert_eq!(t.unix_nanos(), 1_546_300_800_000_000_000);
    assert_eq!(t.offset_seconds(), 7200);
}

#[test]
fn timestamp_rejects_unwritable_moments() {
    assert!(Timestamp::new(i128::MAX, 0).is_none());
    assert!(Timestamp::new(0, 100_000).is_none());
    assert!(Timestamp::new(300_000_000_000_000_000_000, 0).is_none());
}

#[test]
fn defaults() {
    assert_eq!(default_queue_capacity(), 8);
    assert_eq!(default_queue_duration(), 10);
}

#[test]
fn logger_setup_once() {
    let mut logger = Logger::new(settings(2, false));
    assert!(!logger.is_initialized());
    assert_eq!(logger.push_entry(entry("x")), Err(LogError::NotInitialized));
    assert_eq!(logger.flush().unwrap_err(), LogError::NotInitialized);
    assert_eq!(logger.push_endpoint("terminal"), Ok(()));
    assert_eq!(logger.push_endpoint("terminal"), Err(LogError::DuplicateEndpoint("terminal".to_owned())));
    assert_eq!(logger.setup(), Ok(()));
    assert_eq!(logger.setup(), Err(LogError::AlreadyInitialized));
    assert_eq!(logger.push_endpoint("file"), Err(LogError::AlreadyInitialized));
}

#[test]
fn logger_queues_until_full() {
    let mut logger = Logger::new(settings(2, false));
    logger.push_endpoint("terminal").unwrap();
    logger.setup().unwrap();
    assert!(logger.is_enabled());
    assert!(logger.is_buffered());
    assert_eq!(logger.push_entry(entry("a")), Ok(false));
    assert_eq!(logger.len(), 1);
    assert_eq!(logger.push_entry(entry("b")), Ok(true));
    assert!(logger.is_full());
    let written = logger.flush().unwrap();
    let contents: Vec<&str> = written.iter().map(|e| e.content.as_str()).collect();
    assert_eq!(contents, vec!["a", "b"]);
    assert!(logger.is_empty());
}

#[test]
fn quiet_logger_drops_entries() {
    let mut logger = Logger::new(settings(4, true));
    logger.push_endpoint("terminal").unwrap();
    logger.setup().unwrap();
    assert!(logger.is_disabled());
    assert_eq!(logger.push_entry(entry("a")), Ok(false));
    assert!(logger.is_empty());
    assert!(logger.close().unwrap().is_empty());
}

#[test]
fn logger_without_endpoints_drops_entries() {
    let mut logger = Logger::new(settings(1, false));
    logger.setup().unwrap();
    assert!(!logger.is_buffered());
    assert_eq!(logger.duration(), 10);
    assert_eq!(logger.capacity(), 1);
    assert_eq!(logger.push_entry(entry("a")), Ok(false));
    assert!(logger.flush().unwrap().is_empty());
}

#[test]
fn logger_handle_drives_thread() {
    let mut logger = Logger::new(settings(2, false));
    assert_eq!(logger.handle(Request::Flush).unwrap_err(), LogError::NotInitialized);
    assert!(matches!(logger.handle(Request::Endpoint("terminal".to_owned())), Ok(Action::Idle)));
    assert!(matches!(logger.handle(Request::Setup), Ok(Action::SetupEndpoints)));
    assert!(!logger.is_initialized());
    assert_eq!(logger.setup(), Ok(()));
    assert!(matches!(logger.handle(Request::Entry(entry("a"))), Ok(Action::Idle)));
    match logger.handle(Request::Entry(entry("b"))) {
        Ok(Action::Write(written)) => assert_eq!(written.len(), 2),
        other => panic!("unexpected action: {other:?}"),
    }
    assert!(matches!(logger.handle(Request::Entry(entry("c"))), Ok(Action::Idle)));
    match logger.handle(Request::Close) {
        Ok(Action::Close(written)) => assert_eq!(written[0].content, "c"),
        other => panic!("unexpected action: {other:?}"),
    }
    assert_eq!(logger.handle(Request::Setup).unwrap_err(), LogError::AlreadyInitialized);
}

#[test]
fn failed_endpoint_setup_can_be_retried() {
    let mut logger = Logger::new(settings(2, false));
    assert!(matches!(logger.handle(Request::Endpoint("file".to_owned())), Ok(Action::Idle)));
    assert!(matches!(logger.handle(Request::Setup), Ok(Action::SetupEndpoints)));
    // The endpoints failed to set up: the logger was not marked, so the setup is asked again.
    assert!(!logger.is_initialized());
    assert_eq!(logger.handle(Request::Entry(entry("a"))).unwrap_err(), LogError::NotInitialized);
    assert!(matches!(logger.handle(Request::Setup), Ok(Action::SetupEndpoints)));
    assert_eq!(logger.setup(), Ok(()));
    assert!(logger.is_initialized());
    assert_eq!(logger.handle(Request::Setup).unwrap_err(), LogError::AlreadyInitialized);
}
