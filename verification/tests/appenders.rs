use remote_logger::appenders::append::Append;
use remote_logger::appenders::channel_appender::ChannelAppender;
use remote_logger::appenders::console_appender::ConsoleAppender;
use remote_logger::appenders::file_appender::FileAppender;
use remote_logger::appenders::remote_appender::RemoteAppender;
use remote_logger::level::{Level, LevelFilter};
use remote_logger::log_message::LogMessage;
use remote_logger::message_filter::MessageFilter;
use remote_logger::record::Record;

fn record_at(level: Level, target: &str, module: Option<&str>) -> Record {
    Record {
        target: target.to_string(),
        module: module.map(|m| m.to_string()),
        ..Record::new(level)
    }
}

fn check_console_appender(module: &str, file: &str, line: u32) {
    let test_target = "TEST_TARGET";
    let console_appender = ConsoleAppender::new()
        .with_max_level(LevelFilter::Debug)
        .with_target(test_target)
        .with_module_level((module.to_owned(), LevelFilter::Info));
    assert_eq!(console_appender.target(), test_target);
    assert_eq!(console_appender.max_level(), LevelFilter::Debug);
    assert!(!console_appender.module_level().is_empty());

    let record = Record::new(LevelFilter::Trace.to_level().unwrap());
    let is_enabled = console_appender.enabled(&record);
    assert!(!is_enabled);

    let level = LevelFilter::Info.to_level().unwrap();
    let msg = "TEST LOG MESSAGE";
    let record = Record {
        target: test_target.to_string(),
        module: Some(module.to_string()),
        file: Some(file.to_string()),
        line: Some(line),
        args: "TEST LOG MESSAGE".to_string(),
        ..Record::new(level)
    };
    let is_enabled = console_appender.enabled(&record);
    assert!(is_enabled);
    let message = console_appender.message_to_write(&record).unwrap();
    assert!(message.contains(module));
    assert!(message.contains(file));
    {
        let line = line.to_string();
        let level = level.as_str();
        assert!(message.contains(line.as_str()));
        assert!(message.contains(level));
    }
    assert!(message.contains(msg));
}

#[test]
fn append_test_console_appender() {
    check_console_appender("remote_logger::append::tests", "src/append.rs", 439);
}

#[test]
fn console_appender_test_console_appender() {
    check_console_appender(
        "remote_logger::appenders::console_appender::tests",
        "src/appenders/console_appender.rs",
        123,
    );
}

#[test]
fn test_module_level() {
    let appender = ConsoleAppender::new()
        .with_max_level(LevelFilter::Trace)
        .with_module_level(("hyper_util".to_string(), LevelFilter::Off));
    let record = record_at(Level::Info, "", Some("hyper_util::client::legacy::pool"));
    assert!(!appender.enabled(&record));
}

fn check_file_appender(module: &str, file_path: &str) {
    let test_target = "TEST_TARGET";
    let file_appender = FileAppender::new(file_path)
        .with_target(test_target)
        .with_max_level(LevelFilter::Info);
    let record = record_at(Level::Info, test_target, Some(module));
    assert!(file_appender.enabled(&record));

    let file_appender = FileAppender::new(file_path)
        .with_target(test_target)
        .with_max_level(LevelFilter::Info)
        .with_module_level((module.to_owned(), LevelFilter::Error));

    let record = record_at(Level::Info, test_target, Some(module));
    assert!(!file_appender.enabled(&record));

    let record = record_at(Level::Error, test_target, Some(module));
    assert!(file_appender.enabled(&record));
}

#[test]
fn append_test_file_appender() {
    check_file_appender("remote_logger::append::tests", "append_test_file_appender.log");
}

#[test]
fn file_appender_test_file_appender() {
    check_file_appender(
        "remote_logger::appenders::file_appender::tests",
        "file_appender_test_file_appender.log",
    );
}

fn check_channel_appender() {
    let (sender, receiver) = std::sync::mpsc::channel::<LogMessage>();
    let channel_appender = ChannelAppender::new(sender);
    let record = record_at(Level::Info, "test_target", Some("module"));
    channel_appender.append(&record).unwrap();
    let msg = receiver.recv().unwrap();
    assert_eq!(msg.level(), Level::Info);
}

#[test]
fn append_test_channel_appender() {
    check_channel_appender();
}

#[test]
fn channel_appender_test_channel_appender() {
    check_channel_appender();
}

struct WarnOnly;

impl MessageFilter for WarnOnly {
    fn filter_message(&self, record: &Record) -> bool {
        record.level == Level::Warn
    }
}

#[test]
fn channel_appender_test_message_filter() {
    let (sender, receiver) = std::sync::mpsc::channel::<LogMessage>();
    let channel_appender = ChannelAppender::new(sender).with_message_filter(WarnOnly);
    let count = 10;
    for _ in 0..count {
        for level in [Level::Info, Level::Warn, Level::Error] {
            let record = Record { args: "test message".to_string(), ..Record::new(level) };
            channel_appender.append(&record).unwrap();
        }
    }
    drop(channel_appender);
    let value = receiver.iter().count();
    assert_eq!(value, count);
}

#[test]
fn channel_append_without_receiver_fails_with_send_error() {
    let (sender, receiver) = std::sync::mpsc::channel::<LogMessage>();
    drop(receiver);
    let channel_appender = ChannelAppender::new(sender);
    let record = Record::new(Level::Info);
    let result = channel_appender.append(&record);
    assert!(matches!(result, Err(remote_logger::error::Error::Send(_))));
    assert!(channel_appender.close().is_ok());
}

#[test]
fn channel_append_of_filtered_record_sends_nothing() {
    let (sender, receiver) = std::sync::mpsc::channel::<LogMessage>();
    let channel_appender = ChannelAppender::new(sender).with_max_level(LevelFilter::Warn);
    channel_appender.append(&Record::new(Level::Info)).unwrap();
    assert!(receiver.try_recv().is_err());
}

#[test]
fn remote_appender_queues_only_taken_records() {
    let appender = RemoteAppender::new().with_max_level(LevelFilter::Error);
    assert!(appender.message_to_queue(&Record::new(Level::Info)).is_none());
    let message = appender
        .message_to_queue(&Record { args: "boom".to_string(), ..Record::new(Level::Error) })
        .unwrap();
    assert_eq!(message.message(), "boom");
    assert_eq!(message.level(), Level::Error);
}

#[test]
fn remote_appender_with_message_filter_drops_rejected_records() {
    struct ErrorOnly;
    impl MessageFilter for ErrorOnly {
        fn filter_message(&self, record: &Record) -> bool {
            record.level == Level::Error
        }
    }
    let appender = RemoteAppender::new().with_message_filter(ErrorOnly);
    assert!(appender.message_to_queue(&Record::new(Level::Info)).is_none());
    assert!(appender.message_to_queue(&Record::new(Level::Error)).is_some());
}

#[test]
fn target_list_reaches_each_listed_appender() {
    let appender = ConsoleAppender::new().with_target("B");
    assert!(appender.enabled(&record_at(Level::Info, "A;B;C", Some("m"))));
    assert!(appender.enabled(&record_at(Level::Info, "B", Some("m"))));
    assert!(!appender.enabled(&record_at(Level::Info, "A;BB;C", Some("m"))));
    assert!(!appender.enabled(&record_at(Level::Info, "A", Some("m"))));
    // A record whose target is its module path reaches every appender.
    assert!(appender.enabled(&record_at(Level::Info, "m", Some("m"))));
    // An appender whose target holds a `;` matches no piece.
    let odd = ConsoleAppender::new().with_target("A;B");
    assert!(!odd.enabled(&record_at(Level::Info, "A;B", Some("m"))));
    // An appender whose target is empty takes every target.
    let any = ConsoleAppender::new().with_target("");
    assert!(any.enabled(&record_at(Level::Info, "X", Some("m"))));
}

#[test]
fn module_levels_are_kept_longest_first() {
    let appender = ConsoleAppender::new()
        .with_module_level(("a".to_string(), LevelFilter::Error))
        .with_module_level(("a::b::c".to_string(), LevelFilter::Trace))
        .with_module_level(("a::b".to_string(), LevelFilter::Warn))
        .with_module_level(("x::y".to_string(), LevelFilter::Info));
    let names: Vec<&str> = appender.module_level().iter().map(|(m, _)| m.as_str()).collect();
    assert_eq!(names, vec!["a::b::c", "a::b", "x::y", "a"]);
    // The longest matching prefix decides.
    assert!(appender.enabled(&record_at(Level::Trace, "", Some("a::b::c::d"))));
    assert!(appender.enabled(&record_at(Level::Warn, "", Some("a::b::z"))));
    assert!(!appender.enabled(&record_at(Level::Info, "", Some("a::b::z"))));
    assert!(!appender.enabled(&record_at(Level::Warn, "", Some("a::q"))));
    // A module that no limit names passes by the appender's own limit.
    assert!(appender.enabled(&record_at(Level::Trace, "", Some("zzz"))));
    // A record without module path is not held to module limits.
    assert!(appender.enabled(&record_at(Level::Trace, "", None)));
}

#[test]
fn empty_module_name_comes_first_and_applies_to_all() {
    let appender = ConsoleAppender::new()
        .with_module_level(("a::b".to_string(), LevelFilter::Trace))
        .with_module_level(("".to_string(), LevelFilter::Error));
    let names: Vec<&str> = appender.module_level().iter().map(|(m, _)| m.as_str()).collect();
    assert_eq!(names, vec!["", "a::b"]);
    assert!(!appender.enabled(&record_at(Level::Info, "", Some("a::b::c"))));
}

#[test]
fn equal_length_module_levels_keep_insertion_order() {
    let appender = ConsoleAppender::new()
        .with_module_level(("ab".to_string(), LevelFilter::Error))
        .with_module_level(("cd".to_string(), LevelFilter::Warn))
        .with_module_level(("ef".to_string(), LevelFilter::Info));
    let names: Vec<&str> = appender.module_level().iter().map(|(m, _)| m.as_str()).collect();
    assert_eq!(names, vec!["ab", "cd", "ef"]);
}

#[test]
fn default_appender_takes_every_record() {
    let appender = ConsoleAppender::default();
    for level in [Level::Error, Level::Warn, Level::Info, Level::Debug, Level::Trace] {
        assert!(appender.enabled(&record_at(level, "any;thing", Some("some::module"))));
    }
    let off = ConsoleAppender::new().with_max_level(LevelFilter::Off);
    assert!(!off.enabled(&record_at(Level::Error, "", None)));
}

#[test]
fn more_severe_records_are_taken_too() {
    let appender = FileAppender::new("x.log").with_max_level(LevelFilter::Info);
    assert!(appender.enabled(&record_at(Level::Info, "", None)));
    assert!(appender.enabled(&record_at(Level::Warn, "", None)));
    assert!(appender.enabled(&record_at(Level::Error, "", None)));
    assert!(!appender.enabled(&record_at(Level::Debug, "", None)));
    assert_eq!(appender.file_path(), "x.log");
}

struct Fixed;

impl remote_logger::log_message::FormatMessage for Fixed {
    fn format_message(&self, record: &Record) -> Option<String> {
        Some(format!("<{}>", record.args))
    }
}

struct Silent;

impl remote_logger::log_message::FormatMessage for Silent {
    fn format_message(&self, _record: &Record) -> Option<String> {
        None
    }
}

#[test]
fn installed_formatter_and_filter_are_used() {
    let record = Record { args: "hi".to_string(), ..Record::new(Level::Warn) };
    let console = ConsoleAppender::new().with_formatter(Fixed);
    assert_eq!(console.message_to_write(&record), Some("<hi>".to_string()));
    let file = FileAppender::new("f.log").with_formatter(Silent);
    assert_eq!(file.message_to_write(&record), None);
    let filtered = ConsoleAppender::new().with_formatter(Fixed).with_message_filter(WarnOnly);
    assert_eq!(filtered.message_to_write(&record), Some("<hi>".to_string()));
    assert_eq!(filtered.message_to_write(&Record::new(Level::Error)), None);
    let file = FileAppender::new("f.log").with_message_filter(WarnOnly);
    assert!(file.message_to_write(&Record::new(Level::Info)).is_none());
    assert_eq!(file.file_path(), "f.log");
    let default_output = ConsoleAppender::new().message_to_write(&record);
    assert_eq!(default_output, Some(" WARN  [:0] hi\n\n".to_string()));
}
