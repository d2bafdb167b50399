//! The appenders: each decides which records it takes and what it passes on.

pub mod append;
pub mod console_appender;
pub mod file_appender;
pub mod channel_appender;
pub mod remote_appender;
pub mod message_queue;
