use vstd::prelude::*;
use vstd::string::*;

verus! {

/// How grave a log line is.
#[derive(Clone, Copy, PartialEq, Eq, Structural, Debug)]
pub enum LogType {
    Info,
    Error,
}

impl LogType {
    /// The word that stands for the type in a log line.
    pub open spec fn label_of(self) -> Seq<char> {
        match self {
            LogType::Info => "INFO"@,
            LogType::Error => "ERROR"@,
        }
    }

    /// The word that stands for the type in a log line.
    pub fn label(&self) -> (word: &'static str)
        ensures
            word@ == self.label_of(),
    {
        match self {
            LogType::Info => "INFO",
            LogType::Error => "ERROR",
        }
    }
}

/// A log line: the time, the type and the message, with ` - ` between them.
pub open spec fn log_line_of(time: Seq<char>, log_type: LogType, msg: Seq<char>) -> Seq<char> {
    time + " - "@ + log_type.label_of() + " - "@ + msg
}

/// Makes the line that is logged for a message. `time` is the time of day to
/// put in front, already written out.
pub fn log_line(time: &str, log_type: LogType, msg: &str) -> (line: String)
    ensures
        line@ == log_line_of(time@, log_type, msg@),
{
    let mut line = String::from_str(time);
    line.append(" - ");
    line.append(log_type.label());
    line.append(" - ");
    line.append(msg);
    line
}

} // verus!
