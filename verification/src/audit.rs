//! The audit log: one line per event, each with the local time in front.
//!
//! Writing the log is not done here, and neither is reading the clock. A
//! line is made from the moment and the event's text; whoever writes it
//! swallows a failure, for logging never makes an operation fail.

use std::fmt::Write;
use vstd::prelude::*;
use vstd::string::StringExecFns;

verus! {

/// The name of the log file, which lies beside the executable.
pub const LOG_FILENAME: &'static str = "xcom.log";

/// The pattern of the time in front of a log line: day, month, year, then
/// hours, minutes and seconds.
pub const LOG_STAMP: &'static str = "%d-%m-%Y %H:%M:%S";

/// The text that chrono's `DateTime::format` gives for a moment, told in
/// microseconds since the Unix epoch, at a fixed offset from UTC in seconds,
/// by a `strftime` pattern. There is none where chrono cannot hold the
/// moment or the offset, or where it refuses the pattern.
pub uninterp spec fn formatted_time(
    micros: i64,
    offset_seconds: i32,
    pattern: Seq<char>,
) -> Option<Seq<char>>;

/// Formats a moment with chrono: `FixedOffset::east_opt` and
/// `DateTime::from_timestamp_micros` make the moment at its offset, and
/// `DateTime::format` writes it by the pattern. The contract claims only
/// that the outcome depends on the three arguments alone: chrono reads no
/// clock, time zone or locale on the way.
#[verifier::external_body]
fn format_time(micros: i64, offset_seconds: i32, pattern: &str) -> (text: Option<String>)
    ensures
        match text {
            Some(written) => formatted_time(micros, offset_seconds, pattern@) == Some(written@),
            None => formatted_time(micros, offset_seconds, pattern@) is None,
        },
{
    let offset = chrono::FixedOffset::east_opt(offset_seconds)?;
    let moment = chrono::DateTime::from_timestamp_micros(micros)?.with_timezone(&offset);
    let mut written = String::new();
    match write!(written, "{}", moment.format(pattern)) {
        Ok(()) => Some(written),
        Err(_) => None,
    }
}

/// A log line: the time, one space, the event's text.
pub open spec fn log_line_text(stamp: Seq<char>, data: Seq<char>) -> Seq<char> {
    stamp + " "@ + data
}

/// Puts a time that is already text in front of an event's text.
pub fn compose_log_line(stamp: &str, data: &str) -> (line: String)
    ensures
        line@ == log_line_text(stamp@, data@),
{
    let mut line = stamp.to_owned();
    line.append(" ");
    line.append(data);
    line
}

/// The log line for an event at a moment, told in microseconds since the
/// Unix epoch and shown at `offset_seconds` east of UTC. There is no line
/// where the moment cannot be shown.
pub fn log_line(micros: i64, offset_seconds: i32, data: &str) -> (line: Option<String>)
    ensures
        match formatted_time(micros, offset_seconds, LOG_STAMP@) {
            Some(stamp) => line matches Some(made) && made@ == log_line_text(stamp, data@),
            None => line is None,
        },
{
    match format_time(micros, offset_seconds, LOG_STAMP) {
        Some(stamp) => Some(compose_log_line(stamp.as_str(), data)),
        None => None,
    }
}

} // verus!
