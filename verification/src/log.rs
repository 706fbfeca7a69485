//! What the broker writes to its logs.
//!
//! The functions of this module say which record a message becomes: under
//! which level and for which target it is logged. Writing the record is
//! left to the caller.

use vstd::prelude::*;

verus! {

/// Where the configuration of the logs is read from unless told otherwise.
pub const DEFAULT_LOG_CONFIG: &'static str = "config/log4rs.yml";

/// The file to which the requests are logged.
pub const REQUESTS_LOG_FILE: &'static str = "log/requests.log";

/// The pattern of a line in the file of requests: the time to the second,
/// the level, the message.
pub const REQUESTS_LOG_PATTERN: &'static str = "{d(%Y-%m-%d %H:%M:%S)} {h({l})} {m}{n}";

/// The target of what the server logs about its own work.
pub const SERVER_TARGET: &'static str = "app::server";

/// The target of what the server logs about metadata.
pub const META_TARGET: &'static str = "app::meta";

/// How much a record matters.
#[derive(Clone, Copy, Debug, PartialEq, Eq, Structural)]
pub enum LogLevel {
    Error,
    Info,
    Debug,
}

/// A message on its way to the logs.
#[derive(Clone, Copy, Debug, PartialEq, Eq)]
pub struct LogRecord<'a> {
    /// How much the record matters.
    pub level: LogLevel,
    /// The part of the broker that the record is about.
    pub target: &'static str,
    /// The message itself.
    pub message: &'a str,
}

impl<'a> LogRecord<'a> {
    /// Whether this is the record of `message` at `level` for `target`.
    pub open spec fn is_record(
        &self,
        level: LogLevel,
        target: Seq<char>,
        message: Seq<char>,
    ) -> bool {
        self.level == level && self.target@ == target && self.message@ == message
    }
}

/// The record of a message about the work of the server, for information.
pub fn info(msg: &str) -> (record: LogRecord<'_>)
    ensures
        record.is_record(LogLevel::Info, SERVER_TARGET@, msg@),
{
    LogRecord { level: LogLevel::Info, target: SERVER_TARGET, message: msg }
}

/// The record of a message about the work of the server, for debugging.
pub fn debug(msg: &str) -> (record: LogRecord<'_>)
    ensures
        record.is_record(LogLevel::Debug, SERVER_TARGET@, msg@),
{
    LogRecord { level: LogLevel::Debug, target: SERVER_TARGET, message: msg }
}

/// The record of a message about the work of the server that tells of an
/// error.
pub fn error(msg: &str) -> (record: LogRecord<'_>)
    ensures
        record.is_record(LogLevel::Error, SERVER_TARGET@, msg@),
{
    LogRecord { level: LogLevel::Error, target: SERVER_TARGET, message: msg }
}

/// The record of a message about metadata, for information.
pub fn info_meta(msg: &str) -> (record: LogRecord<'_>)
    ensures
        record.is_record(LogLevel::Info, META_TARGET@, msg@),
{
    LogRecord { level: LogLevel::Info, target: META_TARGET, message: msg }
}

/// The record of a message about metadata, for debugging.
pub fn debug_meta(msg: &str) -> (record: LogRecord<'_>)
    ensures
        record.is_record(LogLevel::Debug, META_TARGET@, msg@),
{
    LogRecord { level: LogLevel::Debug, target: META_TARGET, message: msg }
}

/// The record of a message about metadata that tells of an error.
pub fn error_meta(msg: &str) -> (record: LogRecord<'_>)
    ensures
        record.is_record(LogLevel::Error, META_TARGET@, msg@),
{
    LogRecord { level: LogLevel::Error, target: META_TARGET, message: msg }
}

} // verus!
