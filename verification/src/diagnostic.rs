//! Project validation diagnostics.

use vstd::prelude::*;

use crate::text::push_str;

verus! {

/// A project validation problem with a stable internal rule identifier.
#[derive(Debug, Clone)]
pub struct Diagnostic {
    /// Stable identifier for the validation rule.
    pub code: String,
    /// File or directory associated with the problem, when applicable.
    pub path: Option<String>,
    /// Human-readable explanation.
    pub message: String,
}

/// The text of a diagnostic: `[code] message`, or `[code] path: message`.
pub open spec fn diagnostic_text(
    code: Seq<char>,
    path: Option<Seq<char>>,
    message: Seq<char>,
) -> Seq<char> {
    match path {
        Some(p) => "["@ + code + "] "@ + p + ": "@ + message,
        None => "["@ + code + "] "@ + message,
    }
}

/// A diagnostic as plain values: code, path, message.
pub type DiagView = (Seq<char>, Option<Seq<char>>, Seq<char>);

/// The plain values of a diagnostic.
pub open spec fn diag_view(d: Diagnostic) -> DiagView {
    (
        d.code@,
        match d.path {
            Some(p) => Some(p@),
            None => None,
        },
        d.message@,
    )
}

/// The plain values of a list of diagnostics.
pub open spec fn diags_view(ds: Seq<Diagnostic>) -> Seq<DiagView> {
    ds.map_values(|d: Diagnostic| diag_view(d))
}

impl Diagnostic {
    /// The diagnostic's fields as plain sequences.
    pub open spec fn text(&self) -> Seq<char> {
        diagnostic_text(
            self.code@,
            match self.path {
                Some(p) => Some(p@),
                None => None,
            },
            self.message@,
        )
    }

    /// Creates a diagnostic without an associated path.
    pub fn new(code: &str, message: &str) -> (d: Self)
        ensures
            d.code@ == code@,
            d.path is None,
            d.message@ == message@,
    {
        Diagnostic { code: code.to_owned(), path: None, message: message.to_owned() }
    }

    /// Creates a diagnostic associated with a path.
    pub fn at(code: &str, path: &str, message: &str) -> (d: Self)
        ensures
            d.code@ == code@,
            d.path matches Some(p) && p@ == path@,
            d.message@ == message@,
    {
        Diagnostic {
            code: code.to_owned(),
            path: Some(path.to_owned()),
            message: message.to_owned(),
        }
    }

    /// Renders the diagnostic as one line of text.
    pub fn to_string(&self) -> (r: String)
        ensures
            r@ == self.text(),
    {
        let mut r = String::new();
        push_str(&mut r, "[");
        push_str(&mut r, self.code.as_str());
        push_str(&mut r, "] ");
        match &self.path {
            Some(p) => {
                push_str(&mut r, p.as_str());
                push_str(&mut r, ": ");
            },
            None => {},
        }
        push_str(&mut r, self.message.as_str());
        proof {
            if self.path is Some {
                assert(r@ == "["@ + self.code@ + "] "@ + self.path->0@ + ": "@ + self.message@);
            } else {
                assert(r@ == "["@ + self.code@ + "] "@ + self.message@);
            }
        }
        r
    }
}

} // verus!
