//! An explicit logging context: components append entries to a value the
//! caller owns, and the surrounding program decides where the entries go
//! (console, syslog). The library itself never touches a global logger.

use vstd::prelude::*;

verus! {

/// Severity of a collected log entry.
#[derive(Clone, Copy, PartialEq, Eq, Structural, Debug)]
pub enum LogLevel {
    Debug,
    Info,
    Warn,
    Error,
}

/// One collected log entry: a severity and a message.
pub struct LogEntry {
    pub level: LogLevel,
    pub message: String,
}

/// The ordered list of entries collected during one invocation.
pub struct LogContext {
    pub entries: Vec<LogEntry>,
}

/// Holds when `post` is `pre` with one entry of the given severity and
/// message appended, earlier entries untouched.
pub open spec fn appends_entry(
    pre: LogContext,
    post: LogContext,
    level: LogLevel,
    message: Seq<char>,
) -> bool {
    &&& post.entries@.len() == pre.entries@.len() + 1
    &&& post.entries@.last().level == level
    &&& post.entries@.last().message@ == message
    &&& forall|i: int|
        0 <= i < pre.entries@.len() ==> post.entries@[i] == #[trigger] pre.entries@[i]
}

/// Holds when `post` still carries every entry of `pre`, in place:
/// entries are only ever appended.
pub open spec fn extends_log(pre: LogContext, post: LogContext) -> bool {
    &&& pre.entries@.len() <= post.entries@.len()
    &&& forall|i: int|
        0 <= i < pre.entries@.len() ==> post.entries@[i] == #[trigger] pre.entries@[i]
}

impl LogContext {
    /// A context with no entries yet.
    pub fn new() -> (ctx: LogContext)
        ensures
            ctx.entries@.len() == 0,
    {
        LogContext { entries: Vec::new() }
    }

    fn append(&mut self, level: LogLevel, message: &str)
        ensures
            appends_entry(*old(self), *final(self), level, message@),
    {
        self.entries.push(LogEntry { level, message: message.to_owned() });
    }
}

/// Records `message` at INFO severity.
pub fn log_info(ctx: &mut LogContext, message: &str)
    ensures
        appends_entry(*old(ctx), *final(ctx), LogLevel::Info, message@),
{
    ctx.append(LogLevel::Info, message);
}

/// Records `message` at WARN severity.
pub fn log_warn(ctx: &mut LogContext, message: &str)
    ensures
        appends_entry(*old(ctx), *final(ctx), LogLevel::Warn, message@),
{
    ctx.append(LogLevel::Warn, message);
}

/// Records `message` at ERROR severity.
pub fn log_error(ctx: &mut LogContext, message: &str)
    ensures
        appends_entry(*old(ctx), *final(ctx), LogLevel::Error, message@),
{
    ctx.append(LogLevel::Error, message);
}

/// Records `message` at DEBUG severity.
pub fn log_debug(ctx: &mut LogContext, message: &str)
    ensures
        appends_entry(*old(ctx), *final(ctx), LogLevel::Debug, message@),
{
    ctx.append(LogLevel::Debug, message);
}

} // verus!
