//! Error taxonomy and the exit codes it maps to.

use vstd::prelude::*;

verus! {

/// Process exit status of the command-line tool.
#[derive(Debug, Clone, Copy, PartialEq, Eq, Structural)]
pub enum ExitStatus {
    Success,
    GeneralError,
    ArgumentError,
    ConnectionError,
    PermissionError,
    TimeoutError,
}

impl ExitStatus {
    pub open spec fn code_spec(self) -> u8 {
        match self {
            ExitStatus::Success => 0,
            ExitStatus::GeneralError => 1,
            ExitStatus::ArgumentError => 2,
            ExitStatus::ConnectionError => 3,
            ExitStatus::PermissionError => 4,
            ExitStatus::TimeoutError => 5,
        }
    }

    /// The numeric process exit code.
    pub fn code(self) -> (r: u8)
        ensures
            r == self.code_spec(),
    {
        match self {
            ExitStatus::Success => 0,
            ExitStatus::GeneralError => 1,
            ExitStatus::ArgumentError => 2,
            ExitStatus::ConnectionError => 3,
            ExitStatus::PermissionError => 4,
            ExitStatus::TimeoutError => 5,
        }
    }
}

/// The part of an operating-system I/O error that decides the exit code.
#[derive(Debug, Clone, Copy, PartialEq, Eq, Structural)]
pub enum IoKind {
    PermissionDenied,
    TimedOut,
    Other,
}

/// Errors of every engine, classified by kind.
///
/// `source` holds the rendered text of an underlying cause, where there is one.
#[derive(Debug, Clone)]
pub enum NelstError {
    Argument { message: String, source: Option<String> },
    Connection { message: String, source: Option<String> },
    Permission { message: String, hint: Option<String> },
    Timeout { message: String },
    Io { kind: IoKind, message: String },
    Config { message: String },
    Scan { message: String },
    Other { message: String },
}

pub open spec fn exit_status_of(e: NelstError) -> ExitStatus {
    match e {
        NelstError::Argument { .. } => ExitStatus::ArgumentError,
        NelstError::Connection { .. } => ExitStatus::ConnectionError,
        NelstError::Permission { .. } => ExitStatus::PermissionError,
        NelstError::Timeout { .. } => ExitStatus::TimeoutError,
        NelstError::Io { kind, .. } => match kind {
            IoKind::PermissionDenied => ExitStatus::PermissionError,
            IoKind::TimedOut => ExitStatus::TimeoutError,
            IoKind::Other => ExitStatus::GeneralError,
        },
        _ => ExitStatus::GeneralError,
    }
}

/// The human-readable rendering of an error (its `Display` text).
pub open spec fn description_of(e: NelstError) -> Seq<char> {
    match e {
        NelstError::Argument { message, .. } => "Argument error: "@ + message@,
        NelstError::Connection { message, .. } => "Connection error: "@ + message@,
        NelstError::Permission { message, .. } => "Permission denied: "@ + message@,
        NelstError::Timeout { message } => "Timeout: "@ + message@,
        NelstError::Io { message, .. } => "I/O error: "@ + message@,
        NelstError::Config { message } => "Configuration error: "@ + message@,
        NelstError::Scan { message } => "Scan error: "@ + message@,
        NelstError::Other { message } => message@,
    }
}

/// What `format_error` prints: the description, then the hint on its own line.
pub open spec fn formatted_error(e: NelstError) -> Seq<char> {
    match e {
        NelstError::Permission { hint: Some(h), .. } => "Error: "@ + description_of(e) + "\nHint: "@
            + h@,
        _ => "Error: "@ + description_of(e),
    }
}

fn owned(s: &str) -> (r: String)
    ensures
        r@ == s@,
{
    String::from_str(s)
}

impl NelstError {
    pub fn exit_status(&self) -> (r: ExitStatus)
        ensures
            r == exit_status_of(*self),
    {
        match self {
            NelstError::Argument { .. } => ExitStatus::ArgumentError,
            NelstError::Connection { .. } => ExitStatus::ConnectionError,
            NelstError::Permission { .. } => ExitStatus::PermissionError,
            NelstError::Timeout { .. } => ExitStatus::TimeoutError,
            NelstError::Io { kind, .. } => match kind {
                IoKind::PermissionDenied => ExitStatus::PermissionError,
                IoKind::TimedOut => ExitStatus::TimeoutError,
                IoKind::Other => ExitStatus::GeneralError,
            },
            _ => ExitStatus::GeneralError,
        }
    }

    /// The hint of a permission error, if it carries one.
    pub fn hint(&self) -> (r: Option<&str>)
        ensures
            match *self {
                NelstError::Permission { hint: Some(h), .. } => r is Some && r->0@ == h@,
                _ => r is None,
            },
    {
        match self {
            NelstError::Permission { hint: Some(h), .. } => Some(h.as_str()),
            _ => None,
        }
    }

    pub fn connection(message: &str) -> (r: Self)
        ensures
            r matches NelstError::Connection { message: m, source: None } && m@ == message@,
    {
        NelstError::Connection { message: owned(message), source: None }
    }

    /// A connection error that keeps the rendered text of its cause.
    pub fn connection_with_source(message: &str, source: &str) -> (r: Self)
        ensures
            r matches NelstError::Connection { message: m, source: Some(s) } && m@ == message@
                && s@ == source@,
    {
        NelstError::Connection { message: owned(message), source: Some(owned(source)) }
    }

    pub fn permission(message: &str) -> (r: Self)
        ensures
            r matches NelstError::Permission { message: m, hint: None } && m@ == message@,
    {
        NelstError::Permission { message: owned(message), hint: None }
    }

    pub fn permission_with_hint(message: &str, hint: &str) -> (r: Self)
        ensures
            r matches NelstError::Permission { message: m, hint: Some(h) } && m@ == message@ && h@
                == hint@,
    {
        NelstError::Permission { message: owned(message), hint: Some(owned(hint)) }
    }

    pub fn timeout(message: &str) -> (r: Self)
        ensures
            r matches NelstError::Timeout { message: m } && m@ == message@,
    {
        NelstError::Timeout { message: owned(message) }
    }

    pub fn argument(message: &str) -> (r: Self)
        ensures
            r matches NelstError::Argument { message: m, source: None } && m@ == message@,
    {
        NelstError::Argument { message: owned(message), source: None }
    }

    pub fn config(message: &str) -> (r: Self)
        ensures
            r matches NelstError::Config { message: m } && m@ == message@,
    {
        NelstError::Config { message: owned(message) }
    }

    pub fn scan(message: &str) -> (r: Self)
        ensures
            r matches NelstError::Scan { message: m } && m@ == message@,
    {
        NelstError::Scan { message: owned(message) }
    }

    /// An I/O failure met while connecting: classified as a connection error,
    /// keeping the rendered I/O error as its cause.
    pub fn io_with_context(message: &str, source: &str) -> (r: Self)
        ensures
            r matches NelstError::Connection { message: m, source: Some(s) } && m@ == message@
                && s@ == source@,
    {
        NelstError::Connection { message: owned(message), source: Some(owned(source)) }
    }

    /// Connection and timeout errors may succeed when tried again.
    pub fn is_retryable(&self) -> (r: bool)
        ensures
            r == (*self is Connection || *self is Timeout),
    {
        match self {
            NelstError::Connection { .. } | NelstError::Timeout { .. } => true,
            _ => false,
        }
    }

    /// The error's display text, e.g. `Timeout: no reply`.
    pub fn description(&self) -> (r: String)
        ensures
            r@ == description_of(*self),
    {
        let (prefix, message) = match self {
            NelstError::Argument { message, .. } => ("Argument error: ", message),
            NelstError::Connection { message, .. } => ("Connection error: ", message),
            NelstError::Permission { message, .. } => ("Permission denied: ", message),
            NelstError::Timeout { message } => ("Timeout: ", message),
            NelstError::Io { message, .. } => ("I/O error: ", message),
            NelstError::Config { message } => ("Configuration error: ", message),
            NelstError::Scan { message } => ("Scan error: ", message),
            NelstError::Other { message } => ("", message),
        };
        let mut out = owned(prefix);
        out.append(message.as_str());
        proof {
            if self is Other {
                reveal_strlit("");
                assert(out@ =~= description_of(*self));
            }
        }
        out
    }
}

/// Renders an error for the terminal: `Error: <description>`, followed by
/// `\nHint: <hint>` when the error carries a hint.
pub fn format_error(error: &NelstError) -> (r: String)
    ensures
        r@ == formatted_error(*error),
{
    let mut out = owned("Error: ");
    let d = error.description();
    out.append(d.as_str());
    match error.hint() {
        Some(h) => {
            out.append("\nHint: ");
            out.append(h);
        },
        None => {},
    }
    out
}

} // verus!
