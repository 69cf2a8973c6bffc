//! The log hook: one sink for the whole compositor. A sink that is
//! installed takes the place of the one before it. Without a sink, log
//! messages are discarded.

use vstd::prelude::*;
use vstd::string::StringExecFns;
use crate::types::LogType;

verus! {

/// Where log messages go. `R` is the type of a handler that takes the text
/// as the engine hands it over, undecoded; `T` the type of one that takes
/// decoded text.
pub enum LogSink<R, T> {
    /// A handler for undecoded text.
    Raw(R),
    /// A handler for decoded text.
    Text(T),
    /// The console: every message is written there as one line.
    Console,
}

/// The log hook.
pub struct Logger<R, T> {
    pub sink: Option<LogSink<R, T>>,
}

/// What is to be done with a log message.
pub enum LogAction {
    /// No sink is installed: the message is dropped.
    Discard,
    /// The message goes to the installed handler for undecoded text.
    CallRaw,
    /// The message goes to the installed handler for decoded text.
    CallText,
    /// The line is to be written to the console.
    Print(String),
}

/// The name of a log kind, as it stands in a line of the console.
pub open spec fn kind_name(kind: LogType) -> Seq<char> {
    match kind {
        LogType::Info => "Info"@,
        LogType::Warn => "Warn"@,
        LogType::Error => "Error"@,
        LogType::Wayland => "Wayland"@,
    }
}

/// The line that the console shows for a message: the kind between square
/// brackets, then the text.
pub open spec fn log_line(kind: LogType, text: Seq<char>) -> Seq<char> {
    "wlc ["@ + kind_name(kind) + "] "@ + text
}

/// The name of a log kind.
pub fn log_type_name(kind: LogType) -> (name: &'static str)
    ensures
        name@ == kind_name(kind),
{
    match kind {
        LogType::Info => "Info",
        LogType::Warn => "Warn",
        LogType::Error => "Error",
        LogType::Wayland => "Wayland",
    }
}

/// Makes the line that the console shows for a message.
pub fn format_log(kind: LogType, text: &str) -> (line: String)
    ensures
        line@ == log_line(kind, text@),
{
    let mut line = String::from_str("wlc [");
    line.append(log_type_name(kind));
    line.append("] ");
    line.append(text);
    line
}

impl<R, T> Logger<R, T> {
    /// A hook without a sink.
    pub fn new() -> (logger: Logger<R, T>)
        ensures
            logger.sink is None,
    {
        Logger { sink: None }
    }

    /// What is to be done with a message, given the sink that is installed.
    pub open spec fn spec_log(&self, kind: LogType, text: Seq<char>) -> LogActionView {
        match self.sink {
            None => LogActionView::Discard,
            Some(LogSink::Raw(_)) => LogActionView::CallRaw,
            Some(LogSink::Text(_)) => LogActionView::CallText,
            Some(LogSink::Console) => LogActionView::Print(log_line(kind, text)),
        }
    }

    /// Decides what is to be done with a message. The caller carries it
    /// out: it calls the installed handler, or writes the line.
    pub fn log(&self, kind: LogType, text: &str) -> (action: LogAction)
        ensures
            action@ == self.spec_log(kind, text@),
    {
        match &self.sink {
            None => LogAction::Discard,
            Some(LogSink::Raw(_)) => LogAction::CallRaw,
            Some(LogSink::Text(_)) => LogAction::CallText,
            Some(LogSink::Console) => LogAction::Print(format_log(kind, text)),
        }
    }
}

/// A log action as a mathematical value.
pub ghost enum LogActionView {
    Discard,
    CallRaw,
    CallText,
    Print(Seq<char>),
}

impl View for LogAction {
    type V = LogActionView;

    open spec fn view(&self) -> LogActionView {
        match self {
            LogAction::Discard => LogActionView::Discard,
            LogAction::CallRaw => LogActionView::CallRaw,
            LogAction::CallText => LogActionView::CallText,
            LogAction::Print(line) => LogActionView::Print(line@),
        }
    }
}

/// Installs a handler for undecoded text as the log sink, in place of any
/// sink before it.
pub fn log_set_handler<R, T>(logger: &mut Logger<R, T>, handler: R)
    ensures
        final(logger).sink == Some(LogSink::<R, T>::Raw(handler)),
{
    logger.sink = Some(LogSink::Raw(handler));
}

/// Installs a handler for decoded text as the log sink, in place of any sink
/// before it.
pub fn log_set_rust_handler<R, T>(logger: &mut Logger<R, T>, handler: T)
    ensures
        final(logger).sink == Some(LogSink::<R, T>::Text(handler)),
{
    logger.sink = Some(LogSink::Text(handler));
}

/// Installs the console as the log sink, in place of any sink before it.
pub fn log_set_default_handler<R, T>(logger: &mut Logger<R, T>)
    ensures
        final(logger).sink == Some(LogSink::<R, T>::Console),
{
    logger.sink = Some(LogSink::Console);
}

} // verus!
