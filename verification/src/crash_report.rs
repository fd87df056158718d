//! The line written to the crash log when a thread panics.

use crate::text::{decimal_string, decimal_text};
use vstd::prelude::*;

verus! {

/// Where a panic happened, as `file:line`.
pub open spec fn location_text(file: Seq<char>, line: u32) -> Seq<char> {
    file + ":"@ + decimal_text(line as nat)
}

/// The crash log line: `[epoch SECS] thread 'NAME' panicked at LOCATION: MESSAGE`
/// and a line feed. A thread without a name is `unnamed`, an unknown location
/// is `?`, and a panic whose payload is no text reads `(non-string panic)`.
pub open spec fn crash_line(secs: u64, thread: Option<Seq<char>>, location: Option<(Seq<char>, u32)>, message: Option<Seq<char>>) -> Seq<char> {
    "[epoch "@ + decimal_text(secs as nat) + "] thread '"@ + (match thread {
        Some(t) => t,
        None => "unnamed"@,
    }) + "' panicked at "@ + (match location {
        Some(l) => location_text(l.0, l.1),
        None => "?"@,
    }) + ": "@ + (match message {
        Some(m) => m,
        None => "(non-string panic)"@,
    }) + "\n"@
}

pub open spec fn opt_str(o: Option<&str>) -> Option<Seq<char>> {
    match o {
        Some(s) => Some(s@),
        None => None,
    }
}

/// The crash log line, see `crash_line`.
pub fn crash_log_line(secs: u64, thread: Option<&str>, location: Option<(&str, u32)>, message: Option<&str>) -> (r: String)
    ensures
        r@ == crash_line(secs, opt_str(thread), match location {
            Some(l) => Some((l.0@, l.1)),
            None => None,
        }, opt_str(message)),
{
    let mut out = String::from_str("[epoch ");
    out.append(decimal_string(secs).as_str());
    out.append("] thread '");
    match thread {
        Some(t) => out.append(t),
        None => out.append("unnamed"),
    }
    out.append("' panicked at ");
    match location {
        Some((file, line)) => {
            out.append(file);
            out.append(":");
            out.append(decimal_string(line as u64).as_str());
        },
        None => out.append("?"),
    }
    out.append(": ");
    match message {
        Some(m) => out.append(m),
        None => out.append("(non-string panic)"),
    }
    out.append("\n");
    proof {
        let want = crash_line(secs, opt_str(thread), match location {
            Some(l) => Some((l.0@, l.1)),
            None => None,
        }, opt_str(message));
        assert(out@ =~= want);
    }
    out
}

} // verus!
