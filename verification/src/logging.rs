//! The activity log: where it lives and what each entry says.

use vstd::prelude::*;
use vstd::string::StringExecFns;

use crate::config::{unset_error, unset_message};
use crate::paths::{named, Component, LocalPath, Platform};
use crate::text::{decimal, decimal_string};

verus! {

/// The log file's name below the user's root directory.
pub open spec fn log_file_name(platform: Platform) -> Seq<char> {
    match platform {
        Platform::Windows => "SuDel.log"@,
        _ => ".sudel.log"@,
    }
}

/// The log file, given the value of the root variable (`APPDATA` on
/// Windows, `HOME` elsewhere) where it is set.
pub fn log_path(platform: Platform, root: Option<LocalPath>) -> (r: Result<LocalPath, String>)
    ensures
        root matches Some(p) ==> (r matches Ok(l) && l@ == p@.push(
            named(log_file_name(platform)),
        )),
        root is None ==> (r matches Err(m) && m@ == unset_message(platform)),
{
    match root {
        None => Err(unset_error(platform)),
        Some(p) => match platform {
            Platform::Windows => Ok(p.join("SuDel.log")),
            _ => Ok(p.join(".sudel.log")),
        },
    }
}

/// One line of the log: the time in seconds since the Unix epoch in square
/// brackets, a space, the message and a line break.
pub open spec fn entry_text(timestamp: nat, message: Seq<char>) -> Seq<char> {
    "["@ + decimal(timestamp) + "] "@ + message + "\n"@
}

/// The message that records an action on a target and its result.
pub open spec fn action_message(action: Seq<char>, target: Seq<char>, result: Seq<char>) -> Seq<
    char,
> {
    action + " "@ + target + " "@ + result
}

/// The text that appending `message` to the log at `timestamp` adds.
pub fn append_message(timestamp: u64, message: &str) -> (s: String)
    ensures
        s@ == entry_text(timestamp as nat, message@),
{
    let mut s = String::from_str("[");
    let t = decimal_string(timestamp);
    s.append(t.as_str());
    s.append("] ");
    s.append(message);
    s.append("\n");
    s
}

/// The text that logging `action` on `target` with `result` at `timestamp` adds.
pub fn append_log(timestamp: u64, action: &str, target: &str, result: &str) -> (s: String)
    ensures
        s@ == entry_text(timestamp as nat, action_message(action@, target@, result@)),
{
    let mut m = String::from_str(action);
    m.append(" ");
    m.append(target);
    m.append(" ");
    m.append(result);
    append_message(timestamp, m.as_str())
}

} // verus!
