//! Log levels, the log configuration and the text of log entries.
use vstd::prelude::*;

verus! {

/// How severe a log entry is.
#[derive(Clone, Copy, Debug, PartialEq, Eq, Structural)]
pub enum LogLevel {
    Debug,
    Info,
    Warning,
    Error,
}

pub open spec fn level_label(l: LogLevel) -> Seq<char> {
    match l {
        LogLevel::Debug => "DEBUG"@,
        LogLevel::Info => "INFO"@,
        LogLevel::Warning => "WARN"@,
        LogLevel::Error => "ERROR"@,
    }
}

impl LogLevel {
    /// The label written into log entries.
    pub fn as_str(&self) -> (r: &'static str)
        ensures
            r@ == level_label(*self),
    {
        match self {
            LogLevel::Debug => "DEBUG",
            LogLevel::Info => "INFO",
            LogLevel::Warning => "WARN",
            LogLevel::Error => "ERROR",
        }
    }
}

/// Where logs go and how many are kept.
#[derive(Clone, Debug, PartialEq, Eq)]
pub struct LogConfig {
    pub max_log_size: u64,
    pub max_log_files: usize,
    pub log_dir: String,
}

impl LogConfig {
    /// The usual configuration for logs kept under `log_dir`: at most 5 files
    /// of 5 MiB each.
    pub fn in_dir(log_dir: String) -> (r: LogConfig)
        ensures
            r.max_log_size == 5 * 1024 * 1024,
            r.max_log_files == 5,
            r.log_dir == log_dir,
    {
        LogConfig { max_log_size: 5 * 1024 * 1024, max_log_files: 5, log_dir }
    }
}

/// The log of the application: its configuration and the file it writes to,
/// once it has been opened.
#[derive(Clone, Debug)]
pub struct Logger {
    pub config: LogConfig,
    pub current_log_file: Option<String>,
}

/// The text of one log entry.
pub open spec fn entry_text(level: LogLevel, timestamp: Seq<char>, message: Seq<char>) -> Seq<char> {
    "["@ + timestamp + "] ["@ + level_label(level) + "] "@ + message + "\n"@
}

impl Logger {
    /// A logger with `config` that has no file open yet.
    pub fn new(config: LogConfig) -> (r: Logger)
        ensures
            r.config == config,
            r.current_log_file is None,
    {
        Logger { config, current_log_file: None }
    }

    /// The name of the log file for the day `date` (`YYYY-MM-DD`).
    pub fn log_file_name(date: &str) -> (r: String)
        ensures
            r@ == "gm-master-"@ + date@ + ".log"@,
    {
        String::from_str("gm-master-").concat(date).concat(".log")
    }

    /// The line written for `message` at `level` at `timestamp`.
    pub fn format_entry(level: LogLevel, timestamp: &str, message: &str) -> (r: String)
        ensures
            r@ == entry_text(level, timestamp@, message@),
    {
        String::from_str("[").concat(timestamp).concat("] [").concat(level.as_str()).concat("] ")
            .concat(message).concat("\n")
    }
}

} // verus!
