use remote_logger::appenders::message_queue::{chunk_messages, MessageQueue};
use remote_logger::error::Error;
use remote_logger::kvs::KeyValues;
use remote_logger::level::{passes, Level, LevelFilter};
use remote_logger::appenders::channel_appender::ChannelAppender;
use remote_logger::appenders::remote_appender::RemoteAppender;
use remote_logger::log_message::{
    format_line, get_timestamp, DefaultFormatter, FormatMessage, LogMessage,
};
use remote_logger::logger::{LoggerHandle, RemoteLogger};
use remote_logger::message_filter::{DefaultMessageFilter, MessageFilter};
use remote_logger::record::Record;
use std::sync::Arc;

#[test]
fn test_log_message() {
    let target = "TEST_TARGET";
    let module = "remote_logger::log_message::tests";
    let file = "src/log_message.rs";
    let line = 146;
    let level = Level::Info;
    let record = Record {
        target: target.to_string(),
        module: Some(module.to_string()),
        file: Some(file.to_string()),
        line: Some(line),
        args: "Test Message".to_string(),
        key_values: vec![
            ("KEY_1".to_string(), serde_json::Value::from(1)),
            ("KEY_2".to_string(), serde_json::Value::from(2)),
        ],
        ..Record::new(level)
    };
    let message = LogMessage::from_record(&record);
    assert_eq!(message.target(), target);
    assert_eq!(message.file_name(), file);
    assert_eq!(message.line_no(), line);
    assert_eq!(message.module(), module);
    assert_eq!(message.level(), level);
    assert_eq!(message.message(), "Test Message");
    assert_eq!(message.key_values().len(), 2);
}

#[test]
fn message_of_bare_record_has_empty_location() {
    let message = LogMessage::from_record(&Record::new(Level::Warn));
    assert_eq!(message.module(), "");
    assert_eq!(message.file_name(), "");
    assert_eq!(message.line_no(), 0);
    assert_eq!(message.timestamp(), "");
    assert_eq!(message.key_values().len(), 0);
    assert_eq!(get_timestamp(), "");
}

#[test]
fn repeated_keys_count_once_and_clone_keeps_keys() {
    let record = Record {
        key_values: vec![
            ("k".to_string(), serde_json::Value::from(1)),
            ("j".to_string(), serde_json::Value::from("x")),
            ("k".to_string(), serde_json::Value::from(3)),
        ],
        ..Record::new(Level::Info)
    };
    let message = LogMessage::from_record(&record);
    assert_eq!(message.key_values().len(), 2);
    assert_eq!(message.key_values().as_map().get("k"), Some(&serde_json::Value::from(3)));
    let copy = message.clone();
    assert_eq!(copy.key_values().len(), 2);
    assert_eq!(copy.message(), message.message());
}

#[test]
fn key_values_collect_pairs() {
    let mut kv = KeyValues::default();
    assert_eq!(kv.len(), 0);
    kv.visit_pair("a", serde_json::Value::from(true));
    kv.visit_pair("b", serde_json::Value::from(1));
    kv.visit_pair("a", serde_json::Value::from(false));
    assert_eq!(kv.len(), 2);
    assert_eq!(kv.clone().len(), 2);
    assert!(kv.as_map().contains_key("b"));
}

#[test]
fn default_formatter_writes_one_line() {
    let record = Record {
        target: "t".to_string(),
        module: Some("my::module".to_string()),
        file: Some("src/x.rs".to_string()),
        line: Some(1234567),
        args: "hello".to_string(),
        ..Record::new(Level::Debug)
    };
    let text = DefaultFormatter.format_message(&record).unwrap();
    assert_eq!(text, " DEBUG my::module [src/x.rs:1234567] hello\n\n");
    let bare = DefaultFormatter.format_message(&Record::new(Level::Error)).unwrap();
    assert_eq!(bare, " ERROR  [:0] \n\n");
    let ten = Record { line: Some(10), ..Record::new(Level::Trace) };
    assert_eq!(DefaultFormatter.format_message(&ten).unwrap(), " TRACE  [:10] \n\n");
}

#[test]
fn default_message_filter_lets_everything_through() {
    assert!(DefaultMessageFilter.filter_message(&Record::new(Level::Trace)));
}

#[test]
fn levels_and_filters() {
    assert_eq!(Level::Info.to_level_filter(), LevelFilter::Info);
    assert_eq!(LevelFilter::Off.to_level(), None);
    assert_eq!(LevelFilter::Error.to_level(), Some(Level::Error));
    assert_eq!(Level::Warn.as_str(), "WARN");
    assert_eq!(Level::Trace.as_str(), "TRACE");
    assert!(passes(Level::Error, LevelFilter::Error));
    assert!(!passes(Level::Warn, LevelFilter::Error));
    assert!(!passes(Level::Error, LevelFilter::Off));
    assert_eq!(LevelFilter::Debug.rank_value(), 4);
}

fn messages(n: usize) -> Vec<LogMessage> {
    (0..n)
        .map(|i| LogMessage::from_record(&Record { args: format!("m{}", i), ..Record::new(Level::Info) }))
        .collect()
}

#[test]
fn flush_sends_ten_messages_in_four_batches() {
    let all = messages(10);
    let chunks = chunk_messages(&all, 3);
    let sizes: Vec<usize> = chunks.iter().map(|c| c.len()).collect();
    assert_eq!(sizes, vec![3, 3, 3, 1]);
    let joined: Vec<&str> = chunks.iter().flatten().map(|m| m.message()).collect();
    let expected: Vec<String> = (0..10).map(|i| format!("m{}", i)).collect();
    assert_eq!(joined, expected);
    assert!(chunk_messages(&Vec::new(), 3).is_empty());
}

#[test]
fn queue_hands_out_oldest_first() {
    let mut queue = MessageQueue::new();
    for m in messages(5) {
        queue.push_back(m);
    }
    assert_eq!(queue.len(), 5);
    let batch = queue.take_batch(3);
    let names: Vec<&str> = batch.iter().map(|m| m.message()).collect();
    assert_eq!(names, vec!["m0", "m1", "m2"]);
    assert_eq!(queue.len(), 2);
    let batch = queue.take_batch(3);
    assert_eq!(batch.len(), 2);
    assert_eq!(batch[0].message(), "m3");
    assert_eq!(queue.len(), 0);
    for m in messages(4) {
        queue.push_back(m);
    }
    let rest = queue.drain_all();
    assert_eq!(rest.len(), 4);
    assert_eq!(rest[3].message(), "m3");
    assert_eq!(queue.len(), 0);
}

#[test]
fn logger_keeps_appenders_in_order() {
    let logger: RemoteLogger<u32> = RemoteLogger::new();
    assert_eq!(logger.max_level(), LevelFilter::Trace);
    assert!(logger.appenders().is_empty());
    let logger = logger.with_appender(1).with_appender(2).with_max_level(LevelFilter::Warn);
    assert_eq!(logger.appenders(), &[1, 2]);
    assert!(passes(Level::Error, logger.max_level()));
    assert!(!passes(Level::Info, logger.max_level()));
    let (level, appenders, handle) = logger.init();
    assert_eq!(level, LevelFilter::Warn);
    assert_eq!(appenders.as_slice(), &[1, 2]);
    assert_eq!(handle.appenders(), &[1, 2]);
    let other = LoggerHandle::new(Arc::new(vec![3]));
    assert_eq!(other.appenders(), &[3]);
    let default: RemoteLogger<u32> = RemoteLogger::default();
    assert!(passes(Level::Trace, default.max_level()));
}

#[test]
fn errors_display_their_cause() {
    assert_eq!(Error::SetLogger("a".to_string()).to_string(), "a");
    assert_eq!(Error::LogKv("b".to_string()).to_string(), "b");
    assert_eq!(Error::LockPoison("c".to_string()).to_string(), "c");
    assert_eq!(Error::Io("d".to_string()).to_string(), "d");
    assert_eq!(Error::Send("e".to_string()).to_string(), "e");
}

#[test]
fn message_stamped_with_given_time() {
    let message = LogMessage::from_record_at(&Record::new(Level::Info), "2024-01-01T00:00:00.000Z".to_string());
    assert_eq!(message.timestamp(), "2024-01-01T00:00:00.000Z");
}

#[test]
fn remote_and_channel_messages_carry_given_stamps() {
    let stamp = "2024-05-06T07:08:09.010Z";
    let appender = RemoteAppender::new();
    let message = appender.message_to_queue_at(&Record::new(Level::Info), stamp.to_string()).unwrap();
    assert_eq!(message.timestamp(), stamp);
    let refused = RemoteAppender::new().with_max_level(LevelFilter::Off);
    assert!(refused.message_to_queue_at(&Record::new(Level::Error), stamp.to_string()).is_none());
    let (sender, receiver) = std::sync::mpsc::channel::<LogMessage>();
    let channel = ChannelAppender::new(sender);
    channel.append_at(&Record::new(Level::Warn), stamp.to_string()).unwrap();
    assert_eq!(receiver.recv().unwrap().timestamp(), stamp);
    let sent = channel.message_to_send_at(&Record::new(Level::Warn), "t".to_string()).unwrap();
    assert_eq!(sent.timestamp(), "t");
    let plain = RemoteAppender::new().message_to_queue(&Record::new(Level::Info)).unwrap();
    assert_eq!(plain.timestamp(), "");
}

#[test]
fn format_line_writes_the_given_stamp() {
    let record = Record { args: "x".to_string(), ..Record::new(Level::Info) };
    assert_eq!(format_line("T", &record), "T INFO  [:0] x\n\n");
    assert_eq!(format_line("", &record), DefaultFormatter.format_message(&record).unwrap());
}

#[test]
fn last_pair_of_a_key_wins() {
    let record = Record {
        key_values: vec![
            ("a".to_string(), serde_json::Value::from(1)),
            ("b".to_string(), serde_json::Value::from(2)),
            ("a".to_string(), serde_json::Value::from(3)),
        ],
        ..Record::new(Level::Info)
    };
    let message = LogMessage::from_record(&record);
    let map = message.key_values().as_map();
    assert_eq!(map.get("a"), Some(&serde_json::Value::from(3)));
    assert_eq!(map.get("b"), Some(&serde_json::Value::from(2)));
}
