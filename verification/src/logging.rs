use vstd::prelude::*;
use colored::Colorize;
use crate::ansi::{strip_ansi_spec, ESC};

verus! {

/// How serious a message is.
#[derive(Debug, Clone, Copy, PartialEq, Eq, Structural)]
pub enum LoggingLevel {
    Trace,
    Info,
    Warn,
    Error,
    Fatal,
}

impl LoggingLevel {
    /// The level as a log line names it, five characters wide.
    pub open spec fn label(self) -> Seq<char> {
        match self {
            LoggingLevel::Trace => "TRACE"@,
            LoggingLevel::Info => "INFO "@,
            LoggingLevel::Warn => "WARN "@,
            LoggingLevel::Error => "ERROR"@,
            LoggingLevel::Fatal => "FATAL"@,
        }
    }

    /// The level as a log line names it, five characters wide.
    pub fn as_str(&self) -> (r: &'static str)
        ensures
            r@ == self.label(),
    {
        match self {
            LoggingLevel::Trace => "TRACE",
            LoggingLevel::Info => "INFO ",
            LoggingLevel::Warn => "WARN ",
            LoggingLevel::Error => "ERROR",
            LoggingLevel::Fatal => "FATAL",
        }
    }
}

/// A log line: the time in brackets behind an at sign, the level, a bar, and
/// the message.
pub open spec fn log_line(time: Seq<char>, label: Seq<char>, message: Seq<char>) -> Seq<char> {
    "@["@ + time + "] "@ + label + " | "@ + message
}

/// `line` is a log line for the message, with some time, that names the level
/// in some colouring.
pub open spec fn is_log_line(line: Seq<char>, lvl: LoggingLevel, message: Seq<char>) -> bool {
    exists|time: Seq<char>, label: Seq<char>|
        #[trigger] log_line(time, label, message) == line && strip_ansi_spec(label)
            == lvl.label()
}

/// The pattern in which a log line gives the time: date, time of day, and
/// offset from UTC.
pub open spec fn time_pattern() -> Seq<char> {
    "%Y-%m-%d %H:%M:%S %:z"@
}

/// `chrono::Local::now`, written out by `DateTime::format` in the given
/// pattern. The text depends on the clock and the time zone of the machine:
/// nothing is claimed of it. Writing fails on a pattern that chrono does not
/// know, so only the one pattern of the log lines is admitted.
#[verifier::external_body]
fn local_timestamp(pattern: &str) -> (time: String)
    requires
        pattern@ == time_pattern(),
{
    chrono::Local::now().format(pattern).to_string()
}

/// `Colorize::color` of the crate colored, written out: the text as it is
/// where colours are switched off, and else the text between a colour
/// sequence and the reset sequence. Either way its plain text is `text`.
#[verifier::external_body]
fn paint(text: &str, color: &str) -> (painted: String)
    requires
        !text@.contains(ESC),
        color@.len() > 0 ==> color@[0] != '#',
    ensures
        strip_ansi_spec(painted@) == text@,
{
    text.color(color).to_string()
}

/// `Colorize::color` and `Colorize::on_color` of the crate colored, written
/// out: as `paint`, with a background colour in the colour sequence.
#[verifier::external_body]
fn paint_on(text: &str, color: &str, background: &str) -> (painted: String)
    requires
        !text@.contains(ESC),
        color@.len() > 0 ==> color@[0] != '#',
        background@.len() > 0 ==> background@[0] != '#',
    ensures
        strip_ansi_spec(painted@) == text@,
{
    text.color(color).on_color(background).to_string()
}

/// The level's label in the level's colour.
pub fn painted_label(lvl: LoggingLevel) -> (painted: String)
    ensures
        strip_ansi_spec(painted@) == lvl.label(),
{
    proof {
        reveal_strlit("TRACE");
        reveal_strlit("INFO ");
        reveal_strlit("WARN ");
        reveal_strlit("ERROR");
        reveal_strlit("FATAL");
        reveal_strlit("purple");
        reveal_strlit("blue");
        reveal_strlit("yellow");
        reveal_strlit("red");
        reveal_strlit("black");
        reveal_strlit("bright red");
    }
    match lvl {
        LoggingLevel::Trace => paint(lvl.as_str(), "purple"),
        LoggingLevel::Info => paint(lvl.as_str(), "blue"),
        LoggingLevel::Warn => paint(lvl.as_str(), "yellow"),
        LoggingLevel::Error => paint(lvl.as_str(), "red"),
        LoggingLevel::Fatal => paint_on(lvl.as_str(), "black", "bright red"),
    }
}

/// Puts a log line together from its parts.
pub fn compose_log_line(time: &str, label: &str, message: &str) -> (line: String)
    ensures
        line@ == log_line(time@, label@, message@),
{
    let mut line = String::from_str("@[");
    line.append(time);
    line.append("] ");
    line.append(label);
    line.append(" | ");
    line.append(message);
    line
}

/// The log line for a message: the local time, the level in its colour, and
/// the message.
pub fn logging_format(lvl: LoggingLevel, message: &str) -> (line: String)
    ensures
        is_log_line(line@, lvl, message@),
{
    let time = local_timestamp("%Y-%m-%d %H:%M:%S %:z");
    let label = painted_label(lvl);
    let line = compose_log_line(time.as_str(), label.as_str(), message);
    assert(log_line(time@, label@, message@) == line@);
    line
}

} // verus!
