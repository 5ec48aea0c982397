//! Host environment: game directories and the environment report, from
//! what the caller learned about the machine.

use vstd::prelude::*;

use crate::error::{Error, ErrorKind};
use crate::text::{push_str, trim, trim_string};

verus! {

/// The game directory of `kind` (`mods` or `Workshop`): a configured
/// absolute path as given, a configured relative path under the current
/// directory, otherwise `Zomboid/<kind>` under the home directory.
pub open spec fn zomboid_root_of(configured: Option<Seq<char>>, current_dir: Seq<char>, home: Option<Seq<char>>, kind: Seq<char>) -> Result<Seq<char>, Seq<char>> {
    match configured {
        Some(p) => if crate::config::absolute(p) {
            Ok(p)
        } else {
            Ok(current_dir + "/"@ + p)
        },
        None => match home {
            Some(h) => Ok(h + "/Zomboid/"@ + kind),
            None => Err("home directory is unavailable; pass --root"@),
        },
    }
}

/// Resolves a game directory of `kind`.
pub fn zomboid_root(configured: Option<&str>, current_dir: &str, home: Option<&str>, kind: &str) -> (r: Result<String, Error>)
    ensures
        match zomboid_root_of(
            match configured {
                Some(p) => Some(p@),
                None => None,
            },
            current_dir@,
            match home {
                Some(h) => Some(h@),
                None => None,
            },
            kind@,
        ) {
            Ok(p) => r matches Ok(s) && s@ == p,
            Err(m) => r matches Err(e) && e.kind == ErrorKind::Project && e.message@ == m,
        },
{
    match configured {
        Some(p) => {
            let v = crate::text::chars_of(p);
            if v.len() > 0 && v[0] == '/' {
                Ok(p.to_owned())
            } else {
                let mut s = String::new();
                push_str(&mut s, current_dir);
                push_str(&mut s, "/");
                push_str(&mut s, p);
                Ok(s)
            }
        },
        None => match home {
            Some(h) => {
                let mut s = String::new();
                push_str(&mut s, h);
                push_str(&mut s, "/Zomboid/");
                push_str(&mut s, kind);
                Ok(s)
            },
            None => Err(Error::project("home directory is unavailable; pass --root")),
        },
    }
}

/// The report line of a diagnostic command: its first output, trimmed, or
/// `not found` when it could not run or failed.
pub open spec fn command_line_of(name: Seq<char>, output: Option<(Seq<char>, Seq<char>)>) -> Seq<char> {
    match output {
        Some((stdout, stderr)) => name + ": "@ + trim(if stdout.len() == 0 { stderr } else { stdout }),
        None => name + ": not found"@,
    }
}

/// Formats the report line of a diagnostic command from its standard output
/// and error, or `None` where it could not run or failed.
pub fn command_line(name: &str, output: Option<(String, String)>) -> (r: String)
    ensures
        r@ == command_line_of(
            name@,
            match output {
                Some(o) => Some((o.0@, o.1@)),
                None => None,
            },
        ),
{
    let mut s = String::new();
    push_str(&mut s, name);
    match output {
        Some((stdout, stderr)) => {
            push_str(&mut s, ": ");
            let empty = crate::text::chars_of(stdout.as_str()).len() == 0;
            let text = if empty { trim_string(stderr.as_str()) } else { trim_string(stdout.as_str()) };
            push_str(&mut s, text.as_str());
        },
        None => {
            push_str(&mut s, ": not found");
        },
    }
    s
}

/// The line of a game directory in the environment report.
pub open spec fn directory_line_of(label: Seq<char>, path: Seq<char>, found: bool) -> Seq<char> {
    label + ": "@ + path + " ("@ + (if found { "found"@ } else { "not found"@ }) + ")"@
}

/// Formats the line of a game directory in the environment report.
pub fn directory_line(label: &str, path: &str, found: bool) -> (r: String)
    ensures
        r@ == directory_line_of(label@, path@, found),
{
    let mut s = String::new();
    push_str(&mut s, label);
    push_str(&mut s, ": ");
    push_str(&mut s, path);
    push_str(&mut s, " (");
    if found {
        push_str(&mut s, "found");
    } else {
        push_str(&mut s, "not found");
    }
    push_str(&mut s, ")");
    s
}

} // verus!
