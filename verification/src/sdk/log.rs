//! Function logging: one JSON line per message on stderr, which the host
//! collects into the function's log files.
use crate::json::{json_string, spec_json_string};
use crate::text::concat;
use std::io::Write;
use vstd::prelude::*;

verus! {

/// The log line for a message: a JSON object with the level, the message and
/// the `rack_log` marker, keys in sorted order as `serde_json` writes them.
pub open spec fn log_line(level: Seq<char>, message: Seq<char>) -> Seq<char> {
    "{\"level\":"@ + spec_json_string(level) + ",\"message\":"@ + spec_json_string(message)
        + ",\"rack_log\":true}"@
}

/// The log line for a message at a level.
pub fn log_line_text(level: &str, message: &str) -> (r: String)
    ensures
        r@ == log_line(level@, message@),
{
    let a = concat("{\"level\":", json_string(level).as_str());
    let b = concat(a.as_str(), ",\"message\":");
    let c = concat(b.as_str(), json_string(message).as_str());
    concat(c.as_str(), ",\"rack_log\":true}")
}

/// Writes one line to stderr.
#[verifier::external_body]
fn write_stderr_line(line: &str) {
    let _ = writeln!(std::io::stderr(), "{}", line);
}

/// Writes an info-level function log line.
pub fn info(message: &str) {
    write_stderr_line(log_line_text("info", message).as_str());
}

/// Writes a warning-level function log line.
pub fn warn(message: &str) {
    write_stderr_line(log_line_text("warn", message).as_str());
}

/// Writes an error-level function log line.
pub fn error(message: &str) {
    write_stderr_line(log_line_text("error", message).as_str());
}

} // verus!
