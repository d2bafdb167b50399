//! A logging library whose appenders decide, per record, whether and how a
//! log record is passed on to the console, a file, a channel or a remote
//! collector.

pub mod appenders;
pub mod error;
pub mod json;
pub mod kvs;
pub mod level;
pub mod log_message;
pub mod logger;
pub mod message_filter;
pub mod record;
pub mod text;
