//! Human-readable and JSON Lines rendering of command output.
//!
//! A [`Reporter`] decides, for each event, whether anything is written, to
//! which stream, and the exact text; the caller writes it. Successful output
//! goes to standard output and is hidden by `--quiet`; warnings and errors go
//! to standard error and are never hidden.

use vstd::prelude::*;

use crate::error::{kind_name, Error};
use crate::live::{action_name, count_ops, ops_view, status_name, LiveAction, LiveInstallResult, LiveOperation, LiveStatus, OpView};
use crate::text::{chars_of, decimal, fmt_u128, push_char, push_str};

verus! {

/// Stable output serialization format.
#[derive(Debug, Clone, Copy, PartialEq, Eq, Structural)]
pub enum OutputFormat {
    /// Writes requested data and status messages as plain text.
    Human,
    /// Writes one JSON object per event.
    Json,
}

/// Policy for ANSI color in human-readable output.
#[derive(Debug, Clone, Copy, PartialEq, Eq, Structural)]
pub enum ColorChoice {
    /// Uses color only when standard error is a terminal.
    Auto,
    /// Always emits ANSI color escapes.
    Always,
    /// Never emits ANSI color escapes.
    Never,
}

/// Global output controls shared by all commands.
#[derive(Debug, Clone, Copy)]
pub struct OutputOptions {
    /// Suppresses successful status messages.
    pub quiet: bool,
    /// Controls ANSI color in human-readable errors.
    pub color: ColorChoice,
    /// Selects the serialized output contract.
    pub format: OutputFormat,
}

/// One of the two process output streams.
#[derive(Debug, Clone, Copy, PartialEq, Eq, Structural)]
pub enum Stream {
    /// Standard output.
    Stdout,
    /// Standard error.
    Stderr,
}

/// Text to be written verbatim to one stream.
#[derive(Debug)]
pub struct Emission {
    /// Destination stream.
    pub stream: Stream,
    /// Exact text, line terminator included.
    pub text: String,
}

/// An emission as plain values.
pub open spec fn emission_view(e: Emission) -> (Stream, Seq<char>) {
    (e.stream, e.text@)
}

/// An optional emission as plain values.
pub open spec fn opt_emission(e: Option<Emission>) -> Option<(Stream, Seq<char>)> {
    match e {
        Some(x) => Some(emission_view(x)),
        None => None,
    }
}

/// A hexadecimal digit in lower case, for a value below 16.
pub open spec fn hex_digit(n: u32) -> char {
    if n < 10 {
        ((n + 48) as u8) as char
    } else {
        ((n + 87) as u8) as char
    }
}

/// How one character is written inside a JSON string literal: quote and
/// backslash escaped, the five common controls by their short escapes, the
/// other controls below U+0020 as `\u00XX`, every other character as is.
pub open spec fn json_escape(c: char) -> Seq<char> {
    let n = c as u32;
    if n == 0x22 {
        seq!['\\', '"']
    } else if n == 0x5c {
        seq!['\\', '\\']
    } else if n == 0x08 {
        seq!['\\', 'b']
    } else if n == 0x09 {
        seq!['\\', 't']
    } else if n == 0x0a {
        seq!['\\', 'n']
    } else if n == 0x0c {
        seq!['\\', 'f']
    } else if n == 0x0d {
        seq!['\\', 'r']
    } else if n < 0x20 {
        seq!['\\', 'u', '0', '0', hex_digit(n / 16), hex_digit(n % 16)]
    } else {
        seq![c]
    }
}

/// The escaped characters of a string.
pub open spec fn json_chars(s: Seq<char>) -> Seq<char>
    decreases s.len(),
{
    if s.len() == 0 {
        seq![]
    } else {
        json_chars(s.drop_last()) + json_escape(s.last())
    }
}

/// The JSON string literal of a string, as `serde_json` writes it.
pub open spec fn json_text(s: Seq<char>) -> Seq<char> {
    seq!['"'] + json_chars(s) + seq!['"']
}

fn hex_char(n: u32) -> (r: char)
    requires
        n < 16,
    ensures
        r == hex_digit(n),
{
    if n < 10 {
        ((n + 48) as u8) as char
    } else {
        ((n + 87) as u8) as char
    }
}

fn push_escaped(out: &mut String, c: char)
    ensures
        final(out)@ == old(out)@ + json_escape(c),
{
    let n = c as u32;
    if n == 0x22 || n == 0x5c || n == 0x08 || n == 0x09 || n == 0x0a || n == 0x0c || n == 0x0d {
        push_char(out, '\\');
        let e = if n == 0x22 {
            '"'
        } else if n == 0x5c {
            '\\'
        } else if n == 0x08 {
            'b'
        } else if n == 0x09 {
            't'
        } else if n == 0x0a {
            'n'
        } else if n == 0x0c {
            'f'
        } else {
            'r'
        };
        push_char(out, e);
        assert(out@ =~= old(out)@ + seq!['\\', e]);
        assert(out@ =~= old(out)@ + json_escape(c));
    } else if n < 0x20 {
        push_char(out, '\\');
        push_char(out, 'u');
        push_char(out, '0');
        push_char(out, '0');
        let hi = hex_char(n / 16);
        let lo = hex_char(n % 16);
        push_char(out, hi);
        push_char(out, lo);
        assert(out@ =~= old(out)@ + json_escape(c));
    } else {
        push_char(out, c);
        assert(out@ =~= old(out)@ + json_escape(c));
    }
}

/// Writes a string as a JSON string literal.
fn json_quote(s: &str) -> (r: String)
    ensures
        r@ == json_text(s@),
{
    let v = chars_of(s);
    let mut out = String::new();
    push_char(&mut out, '"');
    let mut i: usize = 0;
    while i < v.len()
        invariant
            i <= v.len(),
            v@ == s@,
            out@ == seq!['"'] + json_chars(v@.take(i as int)),
        decreases v.len() - i,
    {
        assert(v@.take(i + 1).drop_last() == v@.take(i as int));
        assert(v@.take(i + 1).last() == v@[i as int]);
        push_escaped(&mut out, v[i]);
        i = i + 1;
    }
    assert(v@.take(v.len() as int) == v@);
    push_char(&mut out, '"');
    out
}

fn push_json(out: &mut String, s: &str)
    ensures
        final(out)@ == old(out)@ + json_text(s@),
{
    let q = json_quote(s);
    push_str(out, q.as_str());
}

/// A line of text.
pub open spec fn line(m: Seq<char>) -> Seq<char> {
    m + "\n"@
}

/// `{"type":..,"message":..}`
pub open spec fn message_json(event: Seq<char>, m: Seq<char>) -> Seq<char> {
    "{\"type\":"@ + json_text(event) + ",\"message\":"@ + json_text(m) + "}"@
}

/// `{"type":"path","name":..,"path":..}`
pub open spec fn path_json(name: Seq<char>, p: Seq<char>) -> Seq<char> {
    "{\"type\":"@ + json_text("path"@) + ",\"name\":"@ + json_text(name) + ",\"path\":"@ + json_text(p) + "}"@
}

/// `{"type":"error","kind":..,"message":..,"exit_code":..}`
pub open spec fn error_json(kind: Seq<char>, m: Seq<char>, code: u8) -> Seq<char> {
    "{\"type\":"@ + json_text("error"@) + ",\"kind\":"@ + json_text(kind) + ",\"message\":"@ + json_text(m)
        + ",\"exit_code\":"@ + decimal(code as nat) + "}"@
}

/// A JSON boolean.
pub open spec fn json_bool(b: bool) -> Seq<char> {
    if b { "true"@ } else { "false"@ }
}

/// A JSON optional string.
pub open spec fn json_opt(v: Option<Seq<char>>) -> Seq<char> {
    match v {
        Some(s) => json_text(s),
        None => "null"@,
    }
}

/// `{"type":"mod_copy","source":..,"version":..,"current":..,"path":..}`
pub open spec fn copy_json(source: Seq<char>, version: Option<Seq<char>>, current: bool, p: Seq<char>) -> Seq<char> {
    "{\"type\":"@ + json_text("mod_copy"@) + ",\"source\":"@ + json_text(source) + ",\"version\":"@ + json_opt(version)
        + ",\"current\":"@ + json_bool(current) + ",\"path\":"@ + json_text(p) + "}"@
}

/// `{"type":"file_operation","action":..,"status":..,"path":..[,"message":..]}`
pub open spec fn operation_json(o: OpView) -> Seq<char> {
    "{\"type\":"@ + json_text("file_operation"@) + ",\"action\":"@ + json_text(action_name(o.0)) + ",\"status\":"@
        + json_text(status_name(o.1)) + ",\"path\":"@ + json_text(o.2) + match o.3 {
        Some(m) => ",\"message\":"@ + json_text(m),
        None => seq![],
    } + "}"@
}

/// Whether an operation outcome is a diagnostic.
pub open spec fn is_diagnostic(s: LiveStatus) -> bool {
    s == LiveStatus::Failed || s == LiveStatus::Skipped
}

/// The human-readable line of an operation.
pub open spec fn operation_text(o: OpView) -> Seq<char> {
    status_name(o.1) + " "@ + action_name(o.0) + ": "@ + o.2 + match o.3 {
        Some(m) => ": "@ + m,
        None => seq![],
    }
}

/// What a status event writes.
pub open spec fn status_out(o: OutputOptions, m: Seq<char>) -> Option<(Stream, Seq<char>)> {
    if o.quiet {
        None
    } else {
        match o.format {
            OutputFormat::Human => Some((Stream::Stdout, line(m))),
            OutputFormat::Json => Some((Stream::Stdout, line(message_json("status"@, m)))),
        }
    }
}

/// What a path event writes.
pub open spec fn path_out(o: OutputOptions, name: Seq<char>, label: Seq<char>, p: Seq<char>) -> Option<(Stream, Seq<char>)> {
    if o.quiet {
        None
    } else {
        match o.format {
            OutputFormat::Human => Some((Stream::Stdout, line(label + ": "@ + p))),
            OutputFormat::Json => Some((Stream::Stdout, line(path_json(name, p)))),
        }
    }
}

/// What a warning writes.
pub open spec fn warning_out(o: OutputOptions, m: Seq<char>) -> (Stream, Seq<char>) {
    match o.format {
        OutputFormat::Human => (Stream::Stderr, line("warning: "@ + m)),
        OutputFormat::Json => (Stream::Stderr, line(message_json("warning"@, m))),
    }
}

/// What a JSON error event writes.
pub open spec fn json_error_out(e: Error) -> (Stream, Seq<char>) {
    (Stream::Stderr, line(error_json(kind_name(e.kind), e.message@, e.exit_code)))
}

/// Whether human-readable errors are colored.
pub open spec fn colored(c: ColorChoice, stderr_is_terminal: bool) -> bool {
    match c {
        ColorChoice::Always => true,
        ColorChoice::Never => false,
        ColorChoice::Auto => stderr_is_terminal,
    }
}

/// What an error writes.
pub open spec fn error_out(o: OutputOptions, e: Error, stderr_is_terminal: bool) -> (Stream, Seq<char>) {
    match o.format {
        OutputFormat::Json => json_error_out(e),
        OutputFormat::Human => if colored(o.color, stderr_is_terminal) {
            (Stream::Stderr, line("\x1b[31merror:\x1b[0m "@ + e.message@))
        } else {
            (Stream::Stderr, line("error: "@ + e.message@))
        },
    }
}

/// The human-readable line of an installed copy.
pub open spec fn copy_text(label: Seq<char>, version: Option<Seq<char>>, current: bool, p: Seq<char>) -> Seq<char> {
    label + ": "@ + match version {
        Some(v) => v,
        None => "unknown version"@,
    } + (if current { " [current]"@ } else { " [different]"@ }) + " ("@ + p + ")"@
}

/// What an installed-copy event writes.
pub open spec fn copy_out(o: OutputOptions, source: Seq<char>, label: Seq<char>, version: Option<Seq<char>>, current: bool, p: Seq<char>) -> Option<(Stream, Seq<char>)> {
    if o.quiet {
        None
    } else {
        match o.format {
            OutputFormat::Human => Some((Stream::Stdout, line(copy_text(label, version, current, p)))),
            OutputFormat::Json => Some((Stream::Stdout, line(copy_json(source, version, current, p)))),
        }
    }
}

/// What a live-install operation writes: diagnostics go to standard error
/// and are never hidden; unchanged files are not listed in human output.
pub open spec fn operation_out(opts: OutputOptions, o: OpView) -> Option<(Stream, Seq<char>)> {
    let stream = if is_diagnostic(o.1) { Stream::Stderr } else { Stream::Stdout };
    if opts.quiet && !is_diagnostic(o.1) {
        None
    } else {
        match opts.format {
            OutputFormat::Human => if o.1 == LiveStatus::Unchanged {
                None
            } else {
                Some((stream, line(operation_text(o))))
            },
            OutputFormat::Json => Some((stream, line(operation_json(o)))),
        }
    }
}

/// What a command-line parser response writes: help and version text to
/// standard output, usage errors to standard error, verbatim.
pub open spec fn usage_out(e: Error) -> (Stream, Seq<char>) {
    if e.exit_code == 0 {
        (Stream::Stdout, e.message@)
    } else {
        (Stream::Stderr, e.message@)
    }
}

fn emit(stream: Stream, text: String) -> (r: Emission)
    ensures
        emission_view(r) == (stream, text@),
{
    Emission { stream, text }
}

fn message_line(event: &str, m: &str) -> (r: String)
    ensures
        r@ == line(message_json(event@, m@)),
{
    let mut s = String::new();
    push_str(&mut s, "{\"type\":");
    push_json(&mut s, event);
    push_str(&mut s, ",\"message\":");
    push_json(&mut s, m);
    push_str(&mut s, "}\n");
    proof {
        reveal_strlit("{\"type\":");
        reveal_strlit(",\"message\":");
        reveal_strlit("}\n");
        reveal_strlit("}");
        reveal_strlit("\n");
    }
    assert(s@ =~= line(message_json(event@, m@)));
    s
}

/// Decides what each command event writes.
pub struct Reporter {
    /// Global output policy parsed from the command line.
    options: OutputOptions,
}

impl Reporter {
    /// The output policy.
    pub closed spec fn options(&self) -> OutputOptions {
        self.options
    }

    /// Creates a reporter using the supplied global output policy.
    pub fn new(options: OutputOptions) -> (r: Self)
        ensures
            r.options() == options,
    {
        Reporter { options }
    }

    /// A successful status event: standard output unless quiet.
    pub fn status(&self, message: &str) -> (r: Option<Emission>)
        ensures
            opt_emission(r) == status_out(self.options(), message@),
    {
        if self.options.quiet {
            return None;
        }
        match self.options.format {
            OutputFormat::Human => {
                let mut t = String::new();
                push_str(&mut t, message);
                push_str(&mut t, "\n");
                proof { reveal_strlit("\n"); }
                assert(t@ =~= line(message@));
                Some(emit(Stream::Stdout, t))
            },
            OutputFormat::Json => {
                let t = message_line("status", message);
                Some(emit(Stream::Stdout, t))
            },
        }
    }

    /// One resolved path as requested command data on standard output.
    pub fn path(&self, name: &str, label: &str, path: &str) -> (r: Option<Emission>)
        ensures
            opt_emission(r) == path_out(self.options(), name@, label@, path@),
    {
        if self.options.quiet {
            return None;
        }
        match self.options.format {
            OutputFormat::Human => {
                let mut t = String::new();
                push_str(&mut t, label);
                push_str(&mut t, ": ");
                push_str(&mut t, path);
                push_str(&mut t, "\n");
                proof { reveal_strlit("\n"); reveal_strlit(": "); }
                assert(t@ =~= line(label@ + ": "@ + path@));
                Some(emit(Stream::Stdout, t))
            },
            OutputFormat::Json => {
                let mut s = String::new();
                push_str(&mut s, "{\"type\":");
                push_json(&mut s, "path");
                push_str(&mut s, ",\"name\":");
                push_json(&mut s, name);
                push_str(&mut s, ",\"path\":");
                push_json(&mut s, path);
                push_str(&mut s, "}\n");
                proof {
                    reveal_strlit("{\"type\":");
                    reveal_strlit(",\"name\":");
                    reveal_strlit(",\"path\":");
                    reveal_strlit("}\n");
                    reveal_strlit("}");
                    reveal_strlit("\n");
                }
                assert(s@ =~= line(path_json(name@, path@)));
                Some(emit(Stream::Stdout, s))
            },
        }
    }

    /// A non-fatal warning: standard error even when quiet.
    pub fn warning(&self, message: &str) -> (r: Emission)
        ensures
            emission_view(r) == warning_out(self.options(), message@),
    {
        match self.options.format {
            OutputFormat::Human => {
                let mut t = String::new();
                push_str(&mut t, "warning: ");
                push_str(&mut t, message);
                push_str(&mut t, "\n");
                proof { reveal_strlit("\n"); reveal_strlit("warning: "); }
                assert(t@ =~= line("warning: "@ + message@));
                emit(Stream::Stderr, t)
            },
            OutputFormat::Json => {
                let t = message_line("warning", message);
                emit(Stream::Stderr, t)
            },
        }
    }

    /// A command failure on standard error; `stderr_is_terminal` decides
    /// automatic color.
    pub fn error(&self, error: &Error, stderr_is_terminal: bool) -> (r: Emission)
        ensures
            emission_view(r) == error_out(self.options(), *error, stderr_is_terminal),
    {
        if self.options.format == OutputFormat::Json {
            return Self::json_error(error);
        }
        let color = match self.options.color {
            ColorChoice::Always => true,
            ColorChoice::Never => false,
            ColorChoice::Auto => stderr_is_terminal,
        };
        let m = error.message.as_str();
        if color {
            let mut t = String::new();
            push_str(&mut t, "\x1b[31merror:\x1b[0m ");
            push_str(&mut t, m);
            push_str(&mut t, "\n");
            proof { reveal_strlit("\n"); reveal_strlit("\x1b[31merror:\x1b[0m "); }
            assert(t@ =~= line("\x1b[31merror:\x1b[0m "@ + m@));
            emit(Stream::Stderr, t)
        } else {
            let mut t = String::new();
            push_str(&mut t, "error: ");
            push_str(&mut t, m);
            push_str(&mut t, "\n");
            proof { reveal_strlit("\n"); reveal_strlit("error: "); }
            assert(t@ =~= line("error: "@ + m@));
            emit(Stream::Stderr, t)
        }
    }

    /// A JSON error event, usable before output options are known.
    pub fn json_error(error: &Error) -> (r: Emission)
        ensures
            emission_view(r) == json_error_out(*error),
    {
        let mut s = String::new();
        push_str(&mut s, "{\"type\":");
        push_json(&mut s, "error");
        push_str(&mut s, ",\"kind\":");
        push_json(&mut s, error.kind.as_str());
        push_str(&mut s, ",\"message\":");
        push_json(&mut s, error.message.as_str());
        push_str(&mut s, ",\"exit_code\":");
        let code = fmt_u128(error.exit_code as u128);
        push_str(&mut s, code.as_str());
        push_str(&mut s, "}\n");
        proof {
            reveal_strlit("{\"type\":");
            reveal_strlit(",\"kind\":");
            reveal_strlit(",\"message\":");
            reveal_strlit(",\"exit_code\":");
            reveal_strlit("}\n");
            reveal_strlit("}");
            reveal_strlit("\n");
        }
        assert(s@ =~= line(error_json(kind_name(error.kind), error.message@, error.exit_code)));
        emit(Stream::Stderr, s)
    }

    /// One discovered installed copy of the mod, on standard output.
    pub fn mod_copy(&self, source: &str, label: &str, version: Option<&str>, current: bool, path: &str) -> (r: Option<Emission>)
        ensures
            opt_emission(r) == copy_out(
                self.options(),
                source@,
                label@,
                match version {
                    Some(v) => Some(v@),
                    None => None,
                },
                current,
                path@,
            ),
    {
        if self.options.quiet {
            return None;
        }
        let ghost vv = match version {
            Some(v) => Some(v@),
            None => None::<Seq<char>>,
        };
        match self.options.format {
            OutputFormat::Human => {
                let mut s = String::new();
                push_str(&mut s, label);
                push_str(&mut s, ": ");
                match version {
                    Some(v) => push_str(&mut s, v),
                    None => push_str(&mut s, "unknown version"),
                }
                if current {
                    push_str(&mut s, " [current]");
                } else {
                    push_str(&mut s, " [different]");
                }
                push_str(&mut s, " (");
                push_str(&mut s, path);
                push_str(&mut s, ")\n");
                proof {
                    reveal_strlit(": ");
                    reveal_strlit("unknown version");
                    reveal_strlit(" [current]");
                    reveal_strlit(" [different]");
                    reveal_strlit(" (");
                    reveal_strlit(")\n");
                    reveal_strlit(")");
                    reveal_strlit("\n");
                }
                assert(s@ =~= line(copy_text(label@, vv, current, path@)));
                Some(emit(Stream::Stdout, s))
            },
            OutputFormat::Json => {
                let mut s = String::new();
                push_str(&mut s, "{\"type\":");
                push_json(&mut s, "mod_copy");
                push_str(&mut s, ",\"source\":");
                push_json(&mut s, source);
                push_str(&mut s, ",\"version\":");
                match version {
                    Some(v) => push_json(&mut s, v),
                    None => push_str(&mut s, "null"),
                }
                push_str(&mut s, ",\"current\":");
                if current {
                    push_str(&mut s, "true");
                } else {
                    push_str(&mut s, "false");
                }
                push_str(&mut s, ",\"path\":");
                push_json(&mut s, path);
                push_str(&mut s, "}\n");
                proof {
                    reveal_strlit("{\"type\":");
                    reveal_strlit(",\"source\":");
                    reveal_strlit(",\"version\":");
                    reveal_strlit("null");
                    reveal_strlit(",\"current\":");
                    reveal_strlit("true");
                    reveal_strlit("false");
                    reveal_strlit(",\"path\":");
                    reveal_strlit("}\n");
                    reveal_strlit("}");
                    reveal_strlit("\n");
                }
                assert(s@ =~= line(copy_json(source@, vv, current, path@)));
                Some(emit(Stream::Stdout, s))
            },
        }
    }

    /// One live-install file operation.
    pub fn live_operation(&self, operation: &LiveOperation) -> (r: Option<Emission>)
        ensures
            opt_emission(r) == operation_out(self.options(), crate::live::op_view(*operation)),
    {
        let diagnostic = operation.status == LiveStatus::Failed || operation.status == LiveStatus::Skipped;
        if self.options.quiet && !diagnostic {
            return None;
        }
        let stream = if diagnostic { Stream::Stderr } else { Stream::Stdout };
        let ghost o = crate::live::op_view(*operation);
        match self.options.format {
            OutputFormat::Human => {
                if operation.status == LiveStatus::Unchanged {
                    return None;
                }
                let mut s = String::new();
                push_str(&mut s, operation.status.as_str());
                push_str(&mut s, " ");
                push_str(&mut s, operation.action.as_str());
                push_str(&mut s, ": ");
                push_str(&mut s, operation.path.as_str());
                match &operation.message {
                    Some(m) => {
                        push_str(&mut s, ": ");
                        push_str(&mut s, m.as_str());
                    },
                    None => {},
                }
                push_str(&mut s, "\n");
                proof {
                    reveal_strlit(" ");
                    reveal_strlit(": ");
                    reveal_strlit("\n");
                }
                assert(s@ =~= line(operation_text(o)));
                Some(emit(stream, s))
            },
            OutputFormat::Json => {
                let mut s = String::new();
                push_str(&mut s, "{\"type\":");
                push_json(&mut s, "file_operation");
                push_str(&mut s, ",\"action\":");
                push_json(&mut s, operation.action.as_str());
                push_str(&mut s, ",\"status\":");
                push_json(&mut s, operation.status.as_str());
                push_str(&mut s, ",\"path\":");
                push_json(&mut s, operation.path.as_str());
                match &operation.message {
                    Some(m) => {
                        push_str(&mut s, ",\"message\":");
                        push_json(&mut s, m.as_str());
                    },
                    None => {},
                }
                push_str(&mut s, "}\n");
                proof {
                    reveal_strlit("{\"type\":");
                    reveal_strlit(",\"action\":");
                    reveal_strlit(",\"status\":");
                    reveal_strlit(",\"path\":");
                    reveal_strlit(",\"message\":");
                    reveal_strlit("}\n");
                    reveal_strlit("}");
                    reveal_strlit("\n");
                }
                assert(s@ =~= line(operation_json(o)));
                Some(emit(stream, s))
            },
        }
    }

    /// A command-line parser response, written verbatim.
    pub fn usage(error: &Error) -> (r: Emission)
        ensures
            emission_view(r) == usage_out(*error),
    {
        if error.exit_code == 0 {
            emit(Stream::Stdout, error.message.clone())
        } else {
            emit(Stream::Stderr, error.message.clone())
        }
    }
}

/// The number of operations with one status.
pub open spec fn count_status(ops: Seq<OpView>, s: LiveStatus) -> nat
    decreases ops.len(),
{
    if ops.len() == 0 {
        0
    } else {
        count_status(ops.drop_last(), s) + (if ops.last().1 == s { 1nat } else { 0nat })
    }
}

/// The aggregate line of a live installation.
pub open spec fn live_summary_text(ops: Seq<OpView>) -> Seq<char> {
    "Live install: "@ + decimal(count_ops(ops, LiveAction::Create, LiveStatus::Applied)) + " created, "@
        + decimal(count_ops(ops, LiveAction::Update, LiveStatus::Applied)) + " updated, "@
        + decimal(count_ops(ops, LiveAction::Remove, LiveStatus::Applied)) + " removed, "@
        + decimal(count_ops(ops, LiveAction::Unchanged, LiveStatus::Unchanged)) + " unchanged, "@
        + decimal(count_status(ops, LiveStatus::Failed)) + " failed, "@
        + decimal(count_status(ops, LiveStatus::Skipped)) + " skipped"@
}

fn count_with_status(installed: &LiveInstallResult, status: LiveStatus) -> (r: usize)
    ensures
        r == count_status(installed.ops(), status),
{
    let mut n: usize = 0;
    let mut i: usize = 0;
    while i < installed.operations.len()
        invariant
            i <= installed.operations.len(),
            n <= i,
            n == count_status(installed.ops().take(i as int), status),
        decreases installed.operations.len() - i,
    {
        assert(installed.ops().take(i + 1).drop_last() == installed.ops().take(i as int));
        assert(installed.ops().take(i + 1).last() == crate::live::op_view(installed.operations@[i as int]));
        if installed.operations[i].status == status {
            n = n + 1;
        }
        i = i + 1;
    }
    assert(installed.ops().take(installed.operations.len() as int) == installed.ops());
    n
}

fn push_count(s: &mut String, n: usize, label: &str)
    ensures
        final(s)@ == old(s)@ + decimal(n as nat) + label@,
{
    let t = fmt_u128(n as u128);
    push_str(s, t.as_str());
    push_str(s, label);
}

/// The status line summarizing a live installation's operation counts.
pub fn report_live_summary(installed: &LiveInstallResult, reporter: &Reporter) -> (r: Option<Emission>)
    ensures
        opt_emission(r) == status_out(reporter.options(), live_summary_text(installed.ops())),
{
    let mut s = String::new();
    push_str(&mut s, "Live install: ");
    push_count(&mut s, installed.count(LiveAction::Create, LiveStatus::Applied), " created, ");
    push_count(&mut s, installed.count(LiveAction::Update, LiveStatus::Applied), " updated, ");
    push_count(&mut s, installed.count(LiveAction::Remove, LiveStatus::Applied), " removed, ");
    push_count(&mut s, installed.count(LiveAction::Unchanged, LiveStatus::Unchanged), " unchanged, ");
    push_count(&mut s, count_with_status(installed, LiveStatus::Failed), " failed, ");
    push_count(&mut s, count_with_status(installed, LiveStatus::Skipped), " skipped");
    assert(s@ =~= live_summary_text(installed.ops()));
    reporter.status(s.as_str())
}

/// The warnings of a list of non-fatal messages, in order.
pub fn report_warnings(warnings: &[String], reporter: &Reporter) -> (r: Vec<Emission>)
    ensures
        r.len() == warnings@.len(),
        forall|i: int| 0 <= i < r.len() ==> emission_view(#[trigger] r@[i]) == warning_out(reporter.options(), warnings@[i]@),
{
    let mut r: Vec<Emission> = Vec::new();
    let mut i: usize = 0;
    while i < warnings.len()
        invariant
            i <= warnings@.len(),
            r.len() == i,
            forall|k: int| 0 <= k < i ==> emission_view(#[trigger] r@[k]) == warning_out(reporter.options(), warnings@[k]@),
        decreases warnings@.len() - i,
    {
        r.push(reporter.warning(warnings[i].as_str()));
        i = i + 1;
    }
    r
}


/// Whether text is one or more whole lines: it ends with a line terminator.
pub open spec fn ends_line(t: Seq<char>) -> bool {
    t.len() > 0 && t.last() == '\n'
}

/// Successful output (status, path and copy events) goes to standard output
/// and is hidden exactly when quiet; warnings and errors go to standard
/// error whatever the policy; every event is written as whole lines.
pub proof fn lemma_output_streams(
    o: OutputOptions,
    m: Seq<char>,
    name: Seq<char>,
    label: Seq<char>,
    p: Seq<char>,
    e: Error,
    stderr_is_terminal: bool,
)
    ensures
        status_out(o, m) is None <==> o.quiet,
        path_out(o, name, label, p) is None <==> o.quiet,
        status_out(o, m) matches Some(x) ==> x.0 == Stream::Stdout && ends_line(x.1),
        path_out(o, name, label, p) matches Some(x) ==> x.0 == Stream::Stdout && ends_line(x.1),
        warning_out(o, m).0 == Stream::Stderr && ends_line(warning_out(o, m).1),
        error_out(o, e, stderr_is_terminal).0 == Stream::Stderr && ends_line(error_out(o, e, stderr_is_terminal).1),
{
    reveal_strlit("\n");
    assert(forall|t: Seq<char>| #[trigger] line(t).len() > 0 && line(t).last() == '\n');
}

} // verus!
