# remote_logger

A logging library with appenders for the console, files, channels and remote
collectors. The library in `src/` is verified with Verus; `app/` holds the
I/O around it.

- `src/level.rs`: levels and verbosity limits.
- `src/record.rs`: the data of a log record, as the appenders read it.
- `src/text.rs`: prefix tests, `;`-separated target lists, decimal numbers.
- `src/appenders/append.rs`: the `Append` trait and the decision whether an
  appender takes a record (verbosity limit, target, per-module limits, kept
  longest name first).
- `src/appenders/*_appender.rs`: the console, file, channel and remote
  appenders and their builders.
- `src/appenders/message_queue.rs`: the queue of a remote appender and the
  batches in which its messages are sent.
- `src/log_message.rs`, `src/kvs.rs`: log messages, their key/value pairs
  (each key with the value of its last pair) and the default text format.
  The library reads no clock: stamps are handed in (`from_record_at`, the
  appenders' `_at` methods, `format_line`); `app/` reads UTC or local time
  through chrono.
- `src/logger.rs`: the logger and the handle that closes its appenders.
- `app/`: conversion from `log` records, writing to stdout and files, the
  tokio worker of the remote appender, and installation as the global `log`
  logger.
