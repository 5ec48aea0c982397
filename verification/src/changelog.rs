//! Release history for Workshop descriptions, from the changelog's
//! `## MAJOR.MINOR.PATCH` headings and their `- ` notes.

use vstd::prelude::*;

use regex::Regex;

use crate::error::{join_lines, Error, ErrorKind};
use crate::paths::strs;
use crate::text::{chars_of, line_spans, lines, push_str, spans, str_eq, string_from_range};

verus! {

/// The texts around the matches of the regular expression `pattern` in
/// `haystack`, in order (`Regex::split`); the whole haystack where the
/// pattern does not compile.
pub uninterp spec fn regex_pieces(pattern: Seq<char>, haystack: Seq<char>) -> Seq<Seq<char>>;

/// Capture group 1 of each match of `pattern` in `haystack`, in order
/// (`Regex::captures_iter`); nothing where the pattern does not compile.
pub uninterp spec fn regex_group1s(pattern: Seq<char>, haystack: Seq<char>) -> Seq<Option<Seq<char>>>;

/// Splits a text at the matches of a regular expression (`Regex::new`,
/// `Regex::split`). The claim: the pieces are the named pieces.
#[verifier::external_body]
fn regex_split(pattern: &str, haystack: &str) -> (r: Vec<String>)
    ensures
        strs(r@) == regex_pieces(pattern@, haystack@),
{
    match Regex::new(pattern) {
        Ok(re) => re.split(haystack).map(|s| s.to_owned()).collect(),
        Err(_) => vec![haystack.to_owned()],
    }
}

/// Reads capture group 1 of every match of a regular expression
/// (`Regex::new`, `Regex::captures_iter`, `Captures::get`). The claim: the
/// groups are the named groups.
#[verifier::external_body]
fn regex_groups(pattern: &str, haystack: &str) -> (r: Vec<Option<String>>)
    ensures
        r@.map_values(|g: Option<String>| match g {
            Some(s) => Some(s@),
            None => None,
        }) == regex_group1s(pattern@, haystack@),
{
    match Regex::new(pattern) {
        Ok(re) => re.captures_iter(haystack).map(|c| c.get(1).map(|m| m.as_str().to_owned())).collect(),
        Err(_) => Vec::new(),
    }
}

/// The pattern of a release heading.
pub open spec fn heading_pattern() -> Seq<char> {
    "(?m)^## (\\d+\\.\\d+\\.\\d+)\\s*$"@
}

/// Whether a line is a release note: it starts with `- `.
pub open spec fn is_note(l: Seq<char>) -> bool {
    l.len() >= 2 && l[0] == '-' && l[1] == ' '
}

/// The release notes of a section, in order.
pub open spec fn notes_of(ls: Seq<Seq<char>>) -> Seq<Seq<char>>
    decreases ls.len(),
{
    if ls.len() == 0 {
        seq![]
    } else if is_note(ls.last()) {
        notes_of(ls.drop_last()).push(ls.last())
    } else {
        notes_of(ls.drop_last())
    }
}

/// A version as its heading gives it (an absent group reads as empty).
pub open spec fn group_text(g: Option<Seq<char>>) -> Seq<char> {
    match g {
        Some(s) => s,
        None => seq![],
    }
}

/// The section after heading `i`.
pub open spec fn section(pieces: Seq<Seq<char>>, i: int) -> Seq<char> {
    if i + 1 < pieces.len() {
        pieces[i + 1]
    } else {
        seq![]
    }
}

/// The rendered releases `0..k`, or the first release without notes.
pub open spec fn releases_of(versions: Seq<Option<Seq<char>>>, pieces: Seq<Seq<char>>, k: int) -> Result<Seq<Seq<char>>, Seq<char>>
    decreases k,
{
    if k <= 0 {
        Ok(seq![])
    } else {
        match releases_of(versions, pieces, k - 1) {
            Err(e) => Err(e),
            Ok(done) => {
                let v = group_text(versions[k - 1]);
                let notes = notes_of(lines(section(pieces, k - 1)));
                if notes.len() == 0 {
                    Err("CHANGELOG.md release "@ + v + " has no notes"@)
                } else {
                    Ok(done.push("### "@ + v + "\n"@ + join_lines(notes)))
                }
            },
        }
    }
}

/// Joins texts with a blank line between them.
pub open spec fn join_paragraphs(parts: Seq<Seq<char>>) -> Seq<char>
    decreases parts.len(),
{
    if parts.len() == 0 {
        seq![]
    } else if parts.len() == 1 {
        parts[0]
    } else {
        join_paragraphs(parts.drop_last()) + "\n\n"@ + parts.last()
    }
}

/// The release history of a changelog, or why it cannot be rendered: the
/// first release must be the current version, and every release needs notes.
pub open spec fn history_outcome(versions: Seq<Option<Seq<char>>>, pieces: Seq<Seq<char>>, current: Seq<char>) -> Result<Seq<char>, Seq<char>> {
    if versions.len() == 0 || versions[0] != Some(current) {
        Err("CHANGELOG.md must begin with version "@ + current)
    } else {
        match releases_of(versions, pieces, versions.len() as int) {
            Ok(rs) => Ok(join_paragraphs(rs)),
            Err(e) => Err(e),
        }
    }
}

fn section_notes(piece: &str) -> (r: String)
    ensures
        r@ == join_lines(notes_of(lines(piece@))),
{
    let v = chars_of(piece);
    let sp = line_spans(&v);
    let ghost ls = spans(v@, sp@);
    let mut out = String::new();
    let mut count: usize = 0;
    let mut i: usize = 0;
    while i < sp.len()
        invariant
            i <= sp.len(),
            ls == spans(v@, sp@),
            ls == lines(piece@),
            forall|k: int| 0 <= k < sp.len() ==> #[trigger] sp@[k].0 <= sp@[k].1 <= v.len(),
            out@ == join_lines(notes_of(ls.take(i as int))),
            count == notes_of(ls.take(i as int)).len(),
            count <= i,
        decreases sp.len() - i,
    {
        let (a, b) = sp[i];
        proof {
            assert(ls.take(i + 1).drop_last() == ls.take(i as int));
            assert(ls.take(i + 1).last() == v@.subrange(a as int, b as int));
        }
        if b - a >= 2 && v[a] == '-' && v[a + 1] == ' ' {
            let ghost before = notes_of(ls.take(i as int));
            if count > 0 {
                push_str(&mut out, "\n");
            }
            let line = string_from_range(&v, a, b);
            push_str(&mut out, line.as_str());
            proof {
                let now = notes_of(ls.take(i + 1));
                assert(now == before.push(line@));
                assert(now.drop_last() == before);
                if count == 0 {
                    assert(now.len() == 1);
                }
            }
            count = count + 1;
        }
        i = i + 1;
    }
    assert(ls.take(sp.len() as int) == ls);
    out
}

/// Renders the release history of a changelog for the current version.
pub fn release_history(changelog: &str, current_version: &str) -> (r: Result<String, Error>)
    ensures
        match history_outcome(regex_group1s(heading_pattern(), changelog@), regex_pieces(heading_pattern(), changelog@), current_version@) {
            Ok(t) => r matches Ok(s) && s@ == t,
            Err(m) => r matches Err(e) && e.kind == ErrorKind::Validation && e.message@ == m,
        },
{
    let pattern = "(?m)^## (\\d+\\.\\d+\\.\\d+)\\s*$";
    let versions = regex_groups(pattern, changelog);
    let pieces = regex_split(pattern, changelog);
    release_history_from(&versions, &pieces, current_version)
}

/// Renders the release history from the version of each release heading
/// and the texts around the headings.
pub fn release_history_from(versions: &Vec<Option<String>>, pieces: &Vec<String>, current_version: &str) -> (r: Result<String, Error>)
    ensures
        match history_outcome(
            versions@.map_values(|g: Option<String>| match g {
                Some(s) => Some(s@),
                None => None,
            }),
            strs(pieces@),
            current_version@,
        ) {
            Ok(t) => r matches Ok(s) && s@ == t,
            Err(m) => r matches Err(e) && e.kind == ErrorKind::Validation && e.message@ == m,
        },
{
    let ghost vs = versions@.map_values(|g: Option<String>| match g {
        Some(s) => Some(s@),
        None => None,
    });
    let ghost ps = strs(pieces@);
    let first_ok = versions.len() > 0 && match &versions[0] {
        Some(v) => str_eq(v.as_str(), current_version),
        None => false,
    };
    if !first_ok {
        let mut m = String::new();
        push_str(&mut m, "CHANGELOG.md must begin with version ");
        push_str(&mut m, current_version);
        proof {
            if versions.len() > 0 {
                assert(vs[0] == match versions@[0] {
                    Some(s) => Some(s@),
                    None => None::<Seq<char>>,
                });
            }
        }
        return Err(Error::validation(m.as_str()));
    }
    proof {
        assert(vs[0] == match versions@[0] {
            Some(s) => Some(s@),
            None => None::<Seq<char>>,
        });
    }
    let mut out = String::new();
    let ghost mut done: Seq<Seq<char>> = seq![];
    let mut i: usize = 0;
    while i < versions.len()
        invariant
            i <= versions.len(),
            vs == versions@.map_values(|g: Option<String>| match g {
                Some(s) => Some(s@),
                None => None,
            }),
            ps == strs(pieces@),
            vs.len() > 0 && vs[0] == Some(current_version@),
            releases_of(vs, ps, i as int) == Ok::<Seq<Seq<char>>, Seq<char>>(done),
            done.len() == i,
            out@ == join_paragraphs(done),
        decreases versions.len() - i,
    {
        let v = match &versions[i] {
            Some(s) => s.clone(),
            None => String::new(),
        };
        proof {
            assert(v@ == group_text(vs[i as int]));
        }
        let notes = if i + 1 < pieces.len() {
            section_notes(pieces[i + 1].as_str())
        } else {
            section_notes("")
        };
        proof {
            reveal_strlit("");
            assert(section(ps, i as int) == (if i + 1 < pieces.len() { pieces@[i + 1]@ } else { ""@ }));
        }
        if chars_of(notes.as_str()).len() == 0 {
            proof {
                let ns = notes_of(lines(section(ps, i as int)));
                lemma_notes_are_notes(lines(section(ps, i as int)));
                if ns.len() > 0 {
                    lemma_join_lines_nonempty(ns);
                }
                lemma_releases_keep_error(vs, ps, i + 1, vs.len() as int);
            }
            let mut m = String::new();
            push_str(&mut m, "CHANGELOG.md release ");
            push_str(&mut m, v.as_str());
            push_str(&mut m, " has no notes");
            return Err(Error::validation(m.as_str()));
        }
        let mut part = String::new();
        push_str(&mut part, "### ");
        push_str(&mut part, v.as_str());
        push_str(&mut part, "\n");
        push_str(&mut part, notes.as_str());
        proof {
            let ns = notes_of(lines(section(ps, i as int)));
            if ns.len() == 0 {
                assert(join_lines(ns) == Seq::<char>::empty());
            }
        }
        if i > 0 {
            push_str(&mut out, "\n\n");
        }
        push_str(&mut out, part.as_str());
        proof {
            let nd = done.push(part@);
            assert(nd.drop_last() == done);
            if i == 0 {
                assert(nd.len() == 1);
            }
            done = nd;
        }
        i = i + 1;
    }
    Ok(out)
}

/// Notes are never empty, so joined notes are empty only when there are none.
proof fn lemma_join_lines_nonempty(ls: Seq<Seq<char>>)
    requires
        ls.len() > 0,
        forall|i: int| 0 <= i < ls.len() ==> is_note(#[trigger] ls[i]),
    ensures
        join_lines(ls).len() > 0,
{
    if ls.len() == 1 {
        assert(is_note(ls[0]));
    }
}

/// Every note of a section is a note line.
proof fn lemma_notes_are_notes(ls: Seq<Seq<char>>)
    ensures
        forall|i: int| 0 <= i < notes_of(ls).len() ==> is_note(#[trigger] notes_of(ls)[i]),
    decreases ls.len(),
{
    if ls.len() > 0 {
        lemma_notes_are_notes(ls.drop_last());
        let rest = notes_of(ls.drop_last());
        if is_note(ls.last()) {
            assert forall|i: int| 0 <= i < notes_of(ls).len() implies is_note(#[trigger] notes_of(ls)[i]) by {
                if i < rest.len() {
                    assert(notes_of(ls)[i] == rest[i]);
                }
            }
        }
    }
}

/// A release without notes ends the rendering: later releases keep the error.
proof fn lemma_releases_keep_error(vs: Seq<Option<Seq<char>>>, ps: Seq<Seq<char>>, k: int, n: int)
    requires
        0 <= k <= n,
        releases_of(vs, ps, k) is Err,
    ensures
        releases_of(vs, ps, n) == releases_of(vs, ps, k),
    decreases n - k,
{
    if k < n {
        lemma_releases_keep_error(vs, ps, k, n - 1);
    }
}

/// Whether some line of a section is a release note line, starting `- `.
pub open spec fn has_note_line(section_text: Seq<char>) -> bool {
    exists|j: int| 0 <= j < lines(section_text).len() && {
        let l = #[trigger] lines(section_text)[j];
        l.len() >= 2 && l[0] == '-' && l[1] == ' '
    }
}

/// A section has notes exactly when one of its lines is a note line.
proof fn lemma_notes_exist(ls: Seq<Seq<char>>)
    ensures
        notes_of(ls).len() > 0 <==> exists|j: int| 0 <= j < ls.len() && is_note(#[trigger] ls[j]),
    decreases ls.len(),
{
    if ls.len() > 0 {
        let u = ls.drop_last();
        lemma_notes_exist(u);
        if exists|j: int| 0 <= j < u.len() && is_note(#[trigger] u[j]) {
            let j = choose|j: int| 0 <= j < u.len() && is_note(#[trigger] u[j]);
            assert(ls[j] == u[j]);
        }
        if exists|j: int| 0 <= j < ls.len() && is_note(#[trigger] ls[j]) {
            let j = choose|j: int| 0 <= j < ls.len() && is_note(#[trigger] ls[j]);
            if j < u.len() {
                assert(u[j] == ls[j]);
            } else {
                assert(ls[j] == ls.last());
            }
        }
        if is_note(ls.last()) {
            assert(ls[ls.len() - 1] == ls.last());
        }
    }
}

/// The first `k` releases render exactly when each of their sections has a
/// note line.
proof fn lemma_releases_need_notes(vs: Seq<Option<Seq<char>>>, ps: Seq<Seq<char>>, k: int)
    requires
        0 <= k <= vs.len(),
    ensures
        releases_of(vs, ps, k) is Ok <==> forall|i: int| 0 <= i < k ==> has_note_line(#[trigger] section(ps, i)),
    decreases k,
{
    if k > 0 {
        lemma_releases_need_notes(vs, ps, k - 1);
        lemma_notes_exist(lines(section(ps, k - 1)));
        if releases_of(vs, ps, k) is Ok {
            assert forall|i: int| 0 <= i < k implies has_note_line(#[trigger] section(ps, i)) by {
                if i == k - 1 {
                    let ls = lines(section(ps, k - 1));
                    let j = choose|j: int| 0 <= j < ls.len() && is_note(#[trigger] ls[j]);
                    assert(is_note(ls[j]));
                }
            }
        }
        if forall|i: int| 0 <= i < k ==> has_note_line(#[trigger] section(ps, i)) {
            assert(has_note_line(section(ps, k - 1)));
            let ls = lines(section(ps, k - 1));
            let j = choose|j: int| 0 <= j < ls.len() && {
                let l = #[trigger] ls[j];
                l.len() >= 2 && l[0] == '-' && l[1] == ' '
            };
            assert(is_note(ls[j]));
            assert forall|i: int| 0 <= i < k - 1 implies has_note_line(#[trigger] section(ps, i)) by {}
        }
    }
}

/// Every release needs notes: a history renders only when the section of
/// every release heading, wherever it stands, has a `- ` note line; and when
/// the first release is the current version, a release without one makes the
/// history fail with the message naming a release without notes.
pub proof fn lemma_every_release_needs_notes(vs: Seq<Option<Seq<char>>>, ps: Seq<Seq<char>>, current: Seq<char>)
    ensures
        history_outcome(vs, ps, current) is Ok ==> forall|i: int| 0 <= i < vs.len() ==> has_note_line(#[trigger] section(ps, i)),
        vs.len() > 0 && vs[0] == Some(current) && (exists|i: int| 0 <= i < vs.len() && !has_note_line(#[trigger] section(ps, i)))
            ==> (history_outcome(vs, ps, current) matches Err(m) && exists|i: int| 0 <= i < vs.len()
                && !has_note_line(#[trigger] section(ps, i))
                && m == "CHANGELOG.md release "@ + group_text(vs[i]) + " has no notes"@),
{
    lemma_releases_need_notes(vs, ps, vs.len() as int);
    if vs.len() > 0 && vs[0] == Some(current) && releases_of(vs, ps, vs.len() as int) is Err {
        lemma_first_release_without_notes(vs, ps, vs.len() as int);
    }
}

/// The refusal of a history names a release whose section has no note line.
proof fn lemma_first_release_without_notes(vs: Seq<Option<Seq<char>>>, ps: Seq<Seq<char>>, k: int)
    requires
        0 <= k <= vs.len(),
        releases_of(vs, ps, k) is Err,
    ensures
        exists|i: int| 0 <= i < k && !has_note_line(#[trigger] section(ps, i))
            && releases_of(vs, ps, k) == Err::<Seq<Seq<char>>, Seq<char>>("CHANGELOG.md release "@ + group_text(vs[i]) + " has no notes"@),
    decreases k,
{
    if releases_of(vs, ps, k - 1) is Err {
        lemma_first_release_without_notes(vs, ps, k - 1);
    } else {
        lemma_notes_exist(lines(section(ps, k - 1)));
        let i = k - 1;
        if has_note_line(section(ps, i)) {
            let ls = lines(section(ps, i));
            let j = choose|j: int| 0 <= j < ls.len() && {
                let l = #[trigger] ls[j];
                l.len() >= 2 && l[0] == '-' && l[1] == ' '
            };
            assert(is_note(ls[j]));
        }
        assert(!has_note_line(section(ps, i)));
    }
}

} // verus!
