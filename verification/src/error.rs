//! Command error categories, diagnostics, and exit-code handling.

use vstd::prelude::*;

use crate::diagnostic::Diagnostic;
use crate::text::push_str;

verus! {

/// Broad command failure category.
#[derive(Debug, Clone, Copy, PartialEq, Eq, Structural)]
pub enum ErrorKind {
    /// Invalid command-line usage or an explicit help/version response.
    Usage,
    /// Invalid project configuration or unsafe project operation.
    Project,
    /// One or more project inputs failed validation.
    Validation,
    /// A filesystem or environment operation failed.
    Io,
}

/// The stable machine-readable name of an error category.
pub open spec fn kind_name(kind: ErrorKind) -> Seq<char> {
    match kind {
        ErrorKind::Usage => "usage"@,
        ErrorKind::Project => "project"@,
        ErrorKind::Validation => "validation"@,
        ErrorKind::Io => "io"@,
    }
}

impl ErrorKind {
    /// Returns the stable machine-readable category name.
    pub fn as_str(self) -> (r: &'static str)
        ensures
            r@ == kind_name(self),
    {
        match self {
            ErrorKind::Usage => "usage",
            ErrorKind::Project => "project",
            ErrorKind::Validation => "validation",
            ErrorKind::Io => "io",
        }
    }
}

/// Error returned by a command.
#[derive(Debug)]
pub struct Error {
    /// Broad error category used by structured output.
    pub kind: ErrorKind,
    /// Human-readable failure description.
    pub message: String,
    /// Process exit code returned to the caller.
    pub exit_code: u8,
    /// Message of the underlying failure, when the error adapts another error.
    pub source: Option<String>,
}

/// `Error` declared for verified code; its contents stay opaque.
#[verifier::external_type_specification]
#[verifier::external_body]
pub struct ExIoError(std::io::Error);

/// Message of an I/O error (`<std::io::Error as Display>::fmt`); the text
/// depends on the platform for operating-system errors and is left unstated.
#[verifier::external_body]
fn io_error_text(error: &std::io::Error) -> String {
    error.to_string()
}

/// The lines of a sequence of texts joined with `\n`.
pub open spec fn join_lines(parts: Seq<Seq<char>>) -> Seq<char>
    decreases parts.len(),
{
    if parts.len() == 0 {
        Seq::empty()
    } else if parts.len() == 1 {
        parts[0]
    } else {
        join_lines(parts.drop_last()) + "\n"@ + parts.last()
    }
}

/// The rendered texts of a list of diagnostics.
pub open spec fn diagnostic_texts(ds: Seq<Diagnostic>) -> Seq<Seq<char>> {
    ds.map_values(|d: Diagnostic| d.text())
}

impl Error {
    /// Creates an error of the supplied kind with exit code one.
    pub fn new(kind: ErrorKind, message: &str) -> (e: Self)
        ensures
            e.kind == kind,
            e.message@ == message@,
            e.exit_code == 1,
            e.source is None,
    {
        Error { kind, message: message.to_owned(), exit_code: 1, source: None }
    }

    /// Converts a command-line parser response, given as its rendered text
    /// and exit code, into a usage error that keeps the exit code (2 where it
    /// does not fit a byte) and the text as its source.
    pub fn usage(message: String, code: i32) -> (e: Self)
        ensures
            e.kind == ErrorKind::Usage,
            e.message@ == message@,
            e.exit_code == (if 0 <= code <= 255 { code as u8 } else { 2u8 }),
            e.source matches Some(s) && s@ == message@,
    {
        let exit_code: u8 = if 0 <= code && code <= 255 { code as u8 } else { 2 };
        let source = message.clone();
        Error { kind: ErrorKind::Usage, message, exit_code, source: Some(source) }
    }

    /// Creates a project-configuration error.
    pub fn project(message: &str) -> (e: Self)
        ensures
            e.kind == ErrorKind::Project,
            e.message@ == message@,
            e.exit_code == 1,
            e.source is None,
    {
        Self::new(ErrorKind::Project, message)
    }

    /// Creates an unstructured validation error.
    pub fn validation(message: &str) -> (e: Self)
        ensures
            e.kind == ErrorKind::Validation,
            e.message@ == message@,
            e.exit_code == 1,
            e.source is None,
    {
        Self::new(ErrorKind::Validation, message)
    }

    /// Creates a validation error whose message lists each diagnostic on its own line.
    pub fn validation_diagnostics(diagnostics: &Vec<Diagnostic>) -> (e: Self)
        ensures
            e.kind == ErrorKind::Validation,
            e.message@ == join_lines(diagnostic_texts(diagnostics@)),
            e.exit_code == 1,
            e.source is None,
    {
        let mut message = String::new();
        let mut i: usize = 0;
        while i < diagnostics.len()
            invariant
                i <= diagnostics.len(),
                message@ == join_lines(diagnostic_texts(diagnostics@.take(i as int))),
            decreases diagnostics.len() - i,
        {
            let line = diagnostics[i].to_string();
            let ghost before = diagnostics@.take(i as int);
            if i > 0 {
                push_str(&mut message, "\n");
            }
            push_str(&mut message, line.as_str());
            proof {
                let now = diagnostics@.take(i + 1);
                assert(now.drop_last() == before);
                assert(diagnostic_texts(now).drop_last() == diagnostic_texts(before));
                assert(diagnostic_texts(now).last() == diagnostics@[i as int].text());
                if i == 0 {
                    assert(diagnostic_texts(now).len() == 1);
                    assert(message@ == diagnostic_texts(now)[0]);
                }
            }
            i = i + 1;
        }
        assert(diagnostics@.take(diagnostics.len() as int) == diagnostics@);
        Error { kind: ErrorKind::Validation, message, exit_code: 1, source: None }
    }

    /// Converts an I/O error into an error that keeps its message as the source.
    pub fn io(error: std::io::Error) -> (e: Self)
        ensures
            e.kind == ErrorKind::Io,
            e.exit_code == 1,
            e.source matches Some(s) && s@ == e.message@,
    {
        let message = io_error_text(&error);
        let source = message.clone();
        Error { kind: ErrorKind::Io, message, exit_code: 1, source: Some(source) }
    }

    /// An I/O error whose message was composed by this library; the message
    /// is also kept as the source.
    pub fn io_text(message: &str) -> (e: Self)
        ensures
            e.kind == ErrorKind::Io,
            e.message@ == message@,
            e.exit_code == 1,
            e.source matches Some(s) && s@ == message@,
    {
        Error { kind: ErrorKind::Io, message: message.to_owned(), exit_code: 1, source: Some(message.to_owned()) }
    }

    /// Returns the broad error category.
    pub fn kind(&self) -> (k: ErrorKind)
        ensures
            k == self.kind,
    {
        self.kind
    }

    /// Returns the human-readable error message.
    pub fn message(&self) -> (m: &str)
        ensures
            m@ == self.message@,
    {
        self.message.as_str()
    }

    /// Returns the process exit code associated with the error.
    pub fn exit_code(&self) -> (c: u8)
        ensures
            c == self.exit_code,
    {
        self.exit_code
    }

    /// Returns the message of the adapted underlying error, when there is one.
    pub fn source(&self) -> (s: Option<String>)
        ensures
            match (s, self.source) {
                (Some(a), Some(b)) => a@ == b@,
                (None, None) => true,
                _ => false,
            },
    {
        match &self.source {
            Some(s) => Some(s.clone()),
            None => None,
        }
    }

    /// The error message, as `Display` renders it.
    pub fn to_string(&self) -> (m: String)
        ensures
            m@ == self.message@,
    {
        self.message.clone()
    }
}

} // verus!
