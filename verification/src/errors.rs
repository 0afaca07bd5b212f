//! The native error taxonomy of the bridge.
//!
//! Every failure that crosses the native/foreign boundary is reported as
//! one of these variants; nothing in this layer recovers silently.

use vstd::prelude::*;
use vstd::string::StringExecFns;
use crate::fmt::int_str;
use crate::fmt::int_to_string;

verus! {

/// A typed error from the bridge.
///
/// * `RuntimeError` — raised while foreign code executed; carries the
///   formatted message read back off the stack.
/// * `SyntaxError` — raised while loading source text.
/// * `TypeError(expected, actual)` — a stack slot's foreign kind did not
///   match the requested native type.
/// * `MemoryError` — foreign allocator exhaustion; carries no message.
/// * `ErrorHandler` — the installed error handler itself faulted.
/// * `ArgCount(min, max, actual)` — a trampoline received an unexpected
///   number of arguments.
/// * `ArgTypeError(position, kind)` — a per-argument type mismatch.
#[derive(Debug, Clone, PartialEq, Eq)]
pub enum Error {
    RuntimeError(String),
    SyntaxError(String),
    TypeError(String, String),
    MemoryError,
    ErrorHandler,
    ArgCount(i32, i32, i32),
    ArgTypeError(i32, String),
}

/// The display text of an error, as a character sequence.
pub open spec fn display_str(e: Error) -> Seq<char> {
    match e {
        Error::RuntimeError(t) => "Lua runtime error: "@ + t@,
        Error::SyntaxError(t) => "Lua syntax error: "@ + t@,
        Error::TypeError(t, g) => "invalid type: expected '"@ + t@ + "', got '"@ + g@ + "'"@,
        Error::MemoryError => "memory allocation error"@,
        Error::ErrorHandler => "error while running the error handler function"@,
        Error::ArgCount(start, end, sz) => "wrong argument count ("@ + int_str(start as int)
            + " to "@ + int_str(end as int) + " expected, got "@ + int_str(sz as int) + ")"@,
        Error::ArgTypeError(narg, tname) => "type error #"@ + int_str(narg as int) + " ("@
            + tname@ + ")"@,
    }
}

/// No error's display text collides with the protected call's own
/// report of an uncallable referent: every variant's rendering opens
/// with its own distinct prefix.
pub proof fn lemma_display_not_uncallable(e: Error)
    ensures
        display_str(e) != "attempt to call a non-function value"@,
{
    reveal_strlit("attempt to call a non-function value");
    reveal_strlit("Lua runtime error: ");
    reveal_strlit("Lua syntax error: ");
    reveal_strlit("invalid type: expected '");
    reveal_strlit("memory allocation error");
    reveal_strlit("error while running the error handler function");
    reveal_strlit("wrong argument count (");
    reveal_strlit("type error #");
    match e {
        Error::RuntimeError(t) => {
            assert(display_str(e)[0] == 'L');
        },
        Error::SyntaxError(t) => {
            assert(display_str(e)[0] == 'L');
        },
        Error::TypeError(t, g) => {
            assert(display_str(e)[0] == 'i');
        },
        Error::MemoryError => {
            assert(display_str(e)[0] == 'm');
        },
        Error::ErrorHandler => {
            assert(display_str(e)[0] == 'e');
        },
        Error::ArgCount(a, b, c) => {
            assert(display_str(e)[0] == 'w');
        },
        Error::ArgTypeError(n, t) => {
            assert(display_str(e)[0] == 't');
        },
    }
    assert("attempt to call a non-function value"@[0] == 'a');
}

impl Error {
    /// Renders the error's display text.
    pub fn display(&self) -> (s: String)
        ensures
            s@ == display_str(*self),
    {
        match self {
            Error::RuntimeError(t) => {
                let mut s = String::from_str("Lua runtime error: ");
                s.append(t.as_str());
                s
            },
            Error::SyntaxError(t) => {
                let mut s = String::from_str("Lua syntax error: ");
                s.append(t.as_str());
                s
            },
            Error::TypeError(t, g) => {
                let mut s = String::from_str("invalid type: expected '");
                s.append(t.as_str());
                s.append("', got '");
                s.append(g.as_str());
                s.append("'");
                s
            },
            Error::MemoryError => String::from_str("memory allocation error"),
            Error::ErrorHandler => String::from_str(
                "error while running the error handler function",
            ),
            Error::ArgCount(start, end, sz) => {
                let mut s = String::from_str("wrong argument count (");
                let a = int_to_string(*start as i64);
                s.append(a.as_str());
                s.append(" to ");
                let b = int_to_string(*end as i64);
                s.append(b.as_str());
                s.append(" expected, got ");
                let c = int_to_string(*sz as i64);
                s.append(c.as_str());
                s.append(")");
                s
            },
            Error::ArgTypeError(narg, tname) => {
                let mut s = String::from_str("type error #");
                let a = int_to_string(*narg as i64);
                s.append(a.as_str());
                s.append(" (");
                s.append(tname.as_str());
                s.append(")");
                s
            },
        }
    }
}

} // verus!
