//! Steam Workshop `workshop.txt` metadata validation.

use vstd::prelude::*;

use crate::diagnostic::Diagnostic;
use crate::templates::push_range;
use crate::text::{
    all_white, chars_of, count_matches, count_occurrences, is_blank, is_u64, line_spans, lines,
    parses_as_u64, push_str, spans, split_once, str_eq, trim, lemma_trim_empty,
};

verus! {

/// Marker replaced with rendered Workshop description lines.
pub open spec fn description_marker() -> Seq<char> {
    "{{DESCRIPTION}}"@
}

/// The `key=value` entries of the metadata lines: blank lines and lines
/// without a non-empty key are skipped.
pub open spec fn metadata_entries(ls: Seq<Seq<char>>) -> Seq<(Seq<char>, Seq<char>)>
    decreases ls.len(),
{
    if ls.len() == 0 {
        seq![]
    } else {
        let rest = metadata_entries(ls.drop_last());
        let l = ls.last();
        if all_white(l) {
            rest
        } else {
            match split_once(l, '=') {
                Some((k, v)) => if k.len() > 0 {
                    rest.push((k, v))
                } else {
                    rest
                },
                None => rest,
            }
        }
    }
}

/// The lines that are neither blank, nor `key=value` with a non-empty key,
/// nor the description marker.
pub open spec fn invalid_lines(ls: Seq<Seq<char>>) -> Seq<Seq<char>>
    decreases ls.len(),
{
    if ls.len() == 0 {
        seq![]
    } else {
        let rest = invalid_lines(ls.drop_last());
        let l = ls.last();
        let keyed = match split_once(l, '=') {
            Some((k, v)) => k.len() > 0,
            None => false,
        };
        if all_white(l) || keyed || l == description_marker() {
            rest
        } else {
            rest.push(l)
        }
    }
}

/// Every value assigned to `key`, in file order.
pub open spec fn values_of(entries: Seq<(Seq<char>, Seq<char>)>, key: Seq<char>) -> Seq<Seq<char>>
    decreases entries.len(),
{
    if entries.len() == 0 {
        seq![]
    } else {
        let rest = values_of(entries.drop_last(), key);
        if entries.last().0 == key {
            rest.push(entries.last().1)
        } else {
            rest
        }
    }
}

/// A problem as a rule code and a message.
pub type Problem = (Seq<char>, Seq<char>);

/// The problem, if any, with a key that must appear once with a value that
/// `accept` allows.
pub open spec fn field_problem(
    vals: Seq<Seq<char>>,
    accepted: bool,
    invalid: Problem,
    missing: Seq<char>,
    duplicate: Seq<char>,
) -> Option<Problem> {
    if vals.len() == 1 {
        if accepted {
            None
        } else {
            Some(invalid)
        }
    } else if vals.len() == 0 {
        Some(("workshop.field.missing"@, missing))
    } else {
        Some(("workshop.field.duplicate"@, duplicate))
    }
}

/// Whether `v` is one of the supported visibility values.
pub open spec fn supported_visibility(v: Seq<char>) -> bool {
    v == "public"@ || v == "friendsOnly"@ || v == "private"@ || v == "unlisted"@
}

/// The problem with the `version` field, which must be exactly `1`.
pub open spec fn version_problem(entries: Seq<(Seq<char>, Seq<char>)>) -> Option<Problem> {
    let vals = values_of(entries, "version"@);
    field_problem(
        vals,
        vals.len() == 1 && vals[0] == "1"@,
        ("workshop.value.invalid"@, "version must be 1, found "@ + vals[0]),
        "version is required"@,
        "version must appear exactly once"@,
    )
}

/// The problem with the `id` field, which must be an unsigned integer.
pub open spec fn id_problem(entries: Seq<(Seq<char>, Seq<char>)>) -> Option<Problem> {
    let vals = values_of(entries, "id"@);
    field_problem(
        vals,
        vals.len() == 1 && parses_as_u64(vals[0]),
        ("workshop.id.invalid"@, "id must be an unsigned integer, found "@ + vals[0]),
        "id is required"@,
        "id must appear exactly once"@,
    )
}

/// The problem with a field that must hold non-blank text.
pub open spec fn nonempty_problem(entries: Seq<(Seq<char>, Seq<char>)>, key: Seq<char>) -> Option<Problem> {
    let vals = values_of(entries, key);
    field_problem(
        vals,
        vals.len() == 1 && trim(vals[0]).len() > 0,
        ("workshop.value.empty"@, key + " must not be empty"@),
        key + " is required"@,
        key + " must appear exactly once"@,
    )
}

/// The problem with the `visibility` field.
pub open spec fn visibility_problem(entries: Seq<(Seq<char>, Seq<char>)>) -> Option<Problem> {
    let vals = values_of(entries, "visibility"@);
    field_problem(
        vals,
        vals.len() == 1 && supported_visibility(vals[0]),
        ("workshop.visibility.invalid"@, "unsupported visibility: "@ + vals[0]),
        "visibility is required"@,
        "visibility must appear exactly once"@,
    )
}

/// An optional problem as a list of zero or one problems.
pub open spec fn opt_list(p: Option<Problem>) -> Seq<Problem> {
    match p {
        Some(x) => seq![x],
        None => seq![],
    }
}

/// Every problem with a `workshop.txt` source, in the order they are reported.
pub open spec fn workshop_problems(source: Seq<char>) -> Seq<Problem> {
    let ls = lines(source);
    let entries = metadata_entries(ls);
    invalid_lines(ls).map_values(|l: Seq<char>| ("workshop.line.invalid"@, "invalid metadata line: "@ + l))
        + opt_list(version_problem(entries)) + opt_list(id_problem(entries))
        + opt_list(nonempty_problem(entries, "title"@)) + opt_list(nonempty_problem(entries, "tags"@))
        + opt_list(visibility_problem(entries)) + (if count_matches(source, description_marker()) != 1 {
        seq![("workshop.description_marker.invalid"@, "{{DESCRIPTION}} must appear exactly once"@)]
    } else {
        seq![]
    })
}

/// The codes of a list of problems, none of them the visibility code.
pub open spec fn no_visibility_code(ps: Seq<Problem>) -> bool {
    forall|i: int| 0 <= i < ps.len() ==> (#[trigger] ps[i]).0 != "workshop.visibility.invalid"@
}

/// A field problem of another field never carries the visibility code.
proof fn lemma_field_problem_code(vals: Seq<Seq<char>>, accepted: bool, invalid: Problem, missing: Seq<char>, duplicate: Seq<char>)
    requires
        invalid.0.len() != 27,
    ensures
        no_visibility_code(opt_list(field_problem(vals, accepted, invalid, missing, duplicate))),
{
    reveal_strlit("workshop.visibility.invalid");
    reveal_strlit("workshop.field.missing");
    reveal_strlit("workshop.field.duplicate");
    let ps = opt_list(field_problem(vals, accepted, invalid, missing, duplicate));
    assert forall|i: int| 0 <= i < ps.len() implies (#[trigger] ps[i]).0 != "workshop.visibility.invalid"@ by {
        assert(ps[i].0.len() != 27);
    }
}

/// Each of Steam's four visibilities is accepted: where the metadata assigns
/// `visibility` exactly once, to `public`, `friendsOnly`, `private` or
/// `unlisted`, the visibility has no problem and no reported problem of the
/// whole file concerns it.
pub proof fn lemma_steam_visibilities_accepted(source: Seq<char>, v: Seq<char>)
    requires
        values_of(metadata_entries(lines(source)), "visibility"@) == seq![v],
        v == "public"@ || v == "friendsOnly"@ || v == "private"@ || v == "unlisted"@,
    ensures
        visibility_problem(metadata_entries(lines(source))) is None,
        no_visibility_code(workshop_problems(source)),
{
    reveal_strlit("workshop.visibility.invalid");
    reveal_strlit("workshop.line.invalid");
    reveal_strlit("workshop.value.invalid");
    reveal_strlit("workshop.id.invalid");
    reveal_strlit("workshop.value.empty");
    reveal_strlit("workshop.description_marker.invalid");
    let ls = lines(source);
    let entries = metadata_entries(ls);
    assert(visibility_problem(entries) is None);
    let inv = invalid_lines(ls).map_values(|l: Seq<char>| ("workshop.line.invalid"@, "invalid metadata line: "@ + l));
    assert forall|i: int| 0 <= i < inv.len() implies (#[trigger] inv[i]).0 != "workshop.visibility.invalid"@ by {
        assert(inv[i].0.len() == 21);
    }
    let vp = values_of(entries, "version"@);
    lemma_field_problem_code(vp, vp.len() == 1 && vp[0] == "1"@, ("workshop.value.invalid"@, "version must be 1, found "@ + vp[0]),
        "version is required"@, "version must appear exactly once"@);
    let ip = values_of(entries, "id"@);
    lemma_field_problem_code(ip, ip.len() == 1 && parses_as_u64(ip[0]), ("workshop.id.invalid"@, "id must be an unsigned integer, found "@ + ip[0]),
        "id is required"@, "id must appear exactly once"@);
    let tp = values_of(entries, "title"@);
    lemma_field_problem_code(tp, tp.len() == 1 && trim(tp[0]).len() > 0, ("workshop.value.empty"@, "title"@ + " must not be empty"@),
        "title"@ + " is required"@, "title"@ + " must appear exactly once"@);
    let gp = values_of(entries, "tags"@);
    lemma_field_problem_code(gp, gp.len() == 1 && trim(gp[0]).len() > 0, ("workshop.value.empty"@, "tags"@ + " must not be empty"@),
        "tags"@ + " is required"@, "tags"@ + " must appear exactly once"@);
    let mk: Seq<Problem> = if count_matches(source, description_marker()) != 1 {
        seq![("workshop.description_marker.invalid"@, "{{DESCRIPTION}} must appear exactly once"@)]
    } else {
        seq![]
    };
    assert(no_visibility_code(mk)) by {
        assert forall|i: int| 0 <= i < mk.len() implies (#[trigger] mk[i]).0 != "workshop.visibility.invalid"@ by {
            assert(mk[i].0.len() == 35);
        }
    }
    let a = opt_list(version_problem(entries));
    let b = opt_list(id_problem(entries));
    let c = opt_list(nonempty_problem(entries, "title"@));
    let d = opt_list(nonempty_problem(entries, "tags"@));
    let e = opt_list(visibility_problem(entries));
    assert(e.len() == 0);
    let all = inv + a + b + c + d + e + mk;
    assert(all == workshop_problems(source));
    assert forall|i: int| 0 <= i < all.len() implies (#[trigger] all[i]).0 != "workshop.visibility.invalid"@ by {
        if i < inv.len() {
            assert(all[i] == inv[i]);
        } else if i < inv.len() + a.len() {
            assert(all[i] == a[i - inv.len()]);
        } else if i < inv.len() + a.len() + b.len() {
            assert(all[i] == b[i - inv.len() - a.len()]);
        } else if i < inv.len() + a.len() + b.len() + c.len() {
            assert(all[i] == c[i - inv.len() - a.len() - b.len()]);
        } else if i < inv.len() + a.len() + b.len() + c.len() + d.len() {
            assert(all[i] == d[i - inv.len() - a.len() - b.len() - c.len()]);
        } else {
            assert(all[i] == mk[i - inv.len() - a.len() - b.len() - c.len() - d.len()]);
        }
    }
}

/// A diagnostic as its code and message.
pub open spec fn problem_of(d: Diagnostic) -> Problem {
    (d.code@, d.message@)
}

/// Whether every diagnostic names `path`.
pub open spec fn all_at(ds: Seq<Diagnostic>, path: Seq<char>) -> bool {
    forall|i: int| 0 <= i < ds.len() ==> ((#[trigger] ds[i]).path matches Some(p) && p@ == path)
}

/// The values of the entries with key `key`.
fn field_values(entries: &Vec<(String, String)>, key: &str) -> (r: Vec<String>)
    ensures
        r@.map_values(|s: String| s@) == values_of(entries@.map_values(|e: (String, String)| (e.0@, e.1@)), key@),
{
    let ghost ev = entries@.map_values(|e: (String, String)| (e.0@, e.1@));
    let mut r: Vec<String> = Vec::new();
    let mut i: usize = 0;
    while i < entries.len()
        invariant
            i <= entries.len(),
            ev == entries@.map_values(|e: (String, String)| (e.0@, e.1@)),
            r@.map_values(|s: String| s@) == values_of(ev.take(i as int), key@),
        decreases entries.len() - i,
    {
        assert(ev.take(i + 1).drop_last() == ev.take(i as int));
        assert(ev.take(i + 1).last() == (entries@[i as int].0@, entries@[i as int].1@));
        if str_eq(entries[i].0.as_str(), key) {
            let ghost before = r@.map_values(|s: String| s@);
            r.push(entries[i].1.clone());
            assert(r@.map_values(|s: String| s@) == before.push(entries@[i as int].1@));
        }
        i = i + 1;
    }
    assert(ev.take(entries.len() as int) == ev);
    r
}

/// Builds a diagnostic for `path` from a code and a message.
fn problem_at(code: &str, path: &str, message: &String) -> (d: Diagnostic)
    ensures
        problem_of(d) == (code@, message@),
        d.path matches Some(p) && p@ == path@,
{
    Diagnostic::at(code, path, message.as_str())
}

/// Appends the field problem, if any, of a once-only field.
fn push_field_problem(
    out: &mut Vec<Diagnostic>,
    path: &str,
    vals: &Vec<String>,
    accepted: bool,
    invalid_code: &str,
    invalid_message: &String,
    missing: &String,
    duplicate: &String,
)
    ensures
        final(out)@.map_values(|d: Diagnostic| problem_of(d)) == old(out)@.map_values(|d: Diagnostic| problem_of(d))
            + opt_list(field_problem(vals@.map_values(|s: String| s@), accepted, (invalid_code@, invalid_message@), missing@, duplicate@)),
        all_at(old(out)@, path@) ==> all_at(final(out)@, path@),
{
    let ghost before = out@.map_values(|d: Diagnostic| problem_of(d));
    let ghost vv = vals@.map_values(|s: String| s@);
    assert(vv.len() == vals.len());
    if vals.len() == 1 {
        if !accepted {
            out.push(problem_at(invalid_code, path, invalid_message));
        }
    } else if vals.len() == 0 {
        let m = missing.clone();
        out.push(problem_at("workshop.field.missing", path, &m));
    } else {
        let m = duplicate.clone();
        out.push(problem_at("workshop.field.duplicate", path, &m));
    }
    assert(out@.map_values(|d: Diagnostic| problem_of(d)) =~= before + opt_list(field_problem(vv, accepted, (invalid_code@, invalid_message@), missing@, duplicate@)));
}

/// Concatenation `a + b` as a new string.
fn cat(a: &str, b: &str) -> (r: String)
    ensures
        r@ == a@ + b@,
{
    let mut r = a.to_owned();
    push_str(&mut r, b);
    r
}

/// Whether a value is one of the supported visibility values.
fn is_supported_visibility(v: &str) -> (r: bool)
    ensures
        r == supported_visibility(v@),
{
    str_eq(v, "public") || str_eq(v, "friendsOnly") || str_eq(v, "private") || str_eq(v, "unlisted")
}

/// The diagnostic for one invalid metadata line.
pub open spec fn invalid_line_problem(l: Seq<char>) -> Problem {
    ("workshop.line.invalid"@, "invalid metadata line: "@ + l)
}

/// Reads the `key=value` entries and reports the invalid lines of a source.
fn scan_metadata_lines(path: &str, source: &str) -> (r: (Vec<(String, String)>, Vec<Diagnostic>))
    ensures
        r.0@.map_values(|e: (String, String)| (e.0@, e.1@)) == metadata_entries(lines(source@)),
        r.1@.map_values(|d: Diagnostic| problem_of(d)) == invalid_lines(lines(source@)).map_values(
            |l: Seq<char>| invalid_line_problem(l),
        ),
        all_at(r.1@, path@),
{
    let v = chars_of(source);
    let sp = line_spans(&v);
    let ghost ls = spans(v@, sp@);
    let mut out: Vec<Diagnostic> = Vec::new();
    let mut entries: Vec<(String, String)> = Vec::new();
    let mut i: usize = 0;
    let ghost f = |l: Seq<char>| invalid_line_problem(l);
    while i < sp.len()
        invariant
            i <= sp.len(),
            ls == spans(v@, sp@),
            ls == lines(source@),
            f == (|l: Seq<char>| invalid_line_problem(l)),
            forall|k: int| 0 <= k < sp.len() ==> #[trigger] sp@[k].0 <= sp@[k].1 <= v.len(),
            entries@.map_values(|e: (String, String)| (e.0@, e.1@)) == metadata_entries(ls.take(i as int)),
            out@.map_values(|d: Diagnostic| problem_of(d)) == invalid_lines(ls.take(i as int)).map_values(f),
            all_at(out@, path@),
        decreases sp.len() - i,
    {
        let (a, b) = sp[i];
        let ghost l = v@.subrange(a as int, b as int);
        assert(ls[i as int] == l);
        assert(ls.take(i + 1).drop_last() == ls.take(i as int));
        assert(ls.take(i + 1).last() == l);
        let ghost eb = entries@.map_values(|e: (String, String)| (e.0@, e.1@));
        let ghost ob = out@.map_values(|d: Diagnostic| problem_of(d));
        let mut q = a;
        while q < b && v[q] != '='
            invariant
                a <= q <= b <= v.len(),
                forall|j: int| a <= j < q ==> v@[j] != '=',
            decreases b - q,
        {
            q = q + 1;
        }
        proof {
            assert forall|j: int| 0 <= j < q - a implies l[j] != '=' by {
                assert(l[j] == v@[a + j]);
            }
            if q < b {
                assert(l[q - a] == v@[q as int]);
            }
            crate::text::lemma_find_char_at(l, '=', q - a);
            if q < b {
                assert(l.take(q - a) == v@.subrange(a as int, q as int));
                assert(l.skip(q - a + 1) == v@.subrange(q + 1, b as int));
            }
        }
        let blank = is_blank(&v, a, b);
        if blank {
        } else if q < b && q > a {
            let mut key = String::new();
            push_range(&mut key, &v, a, q);
            let mut value = String::new();
            push_range(&mut value, &v, q + 1, b);
            entries.push((key, value));
            assert(entries@.map_values(|e: (String, String)| (e.0@, e.1@)) == eb.push(
                (v@.subrange(a as int, q as int), v@.subrange(q + 1, b as int)),
            ));
        } else {
            let mut line = String::new();
            push_range(&mut line, &v, a, b);
            if !str_eq(line.as_str(), "{{DESCRIPTION}}") {
                let message = cat("invalid metadata line: ", line.as_str());
                out.push(problem_at("workshop.line.invalid", path, &message));
                assert(out@.map_values(|d: Diagnostic| problem_of(d)) == ob.push(f(l)));
            }
        }
        i = i + 1;
    }
    assert(ls.take(sp.len() as int) == ls);
    (entries, out)
}

/// Appends the problems with the `version`, `id`, `title`, `tags`, and `visibility` fields.
fn push_field_problems(out: &mut Vec<Diagnostic>, path: &str, entries: &Vec<(String, String)>)
    requires
        all_at(old(out)@, path@),
    ensures
        all_at(final(out)@, path@),
        ({
            let ev = entries@.map_values(|e: (String, String)| (e.0@, e.1@));
            final(out)@.map_values(|d: Diagnostic| problem_of(d)) == old(out)@.map_values(|d: Diagnostic| problem_of(d))
                + opt_list(version_problem(ev)) + opt_list(id_problem(ev))
                + opt_list(nonempty_problem(ev, "title"@)) + opt_list(nonempty_problem(ev, "tags"@))
                + opt_list(visibility_problem(ev))
        }),
{
    let ghost ev = entries@.map_values(|e: (String, String)| (e.0@, e.1@));
    let ghost start = out@.map_values(|d: Diagnostic| problem_of(d));
    let versions = field_values(entries, "version");
    let accepted_version = versions.len() == 1 && str_eq(versions[0].as_str(), "1");
    let found_version = if versions.len() == 1 { cat("version must be 1, found ", versions[0].as_str()) } else { cat("version must be 1, found ", "") };
    push_field_problem(out, path, &versions, accepted_version, "workshop.value.invalid", &found_version,
        &"version is required".to_owned(), &"version must appear exactly once".to_owned());
    proof {
        let vv = versions@.map_values(|s: String| s@);
        assert(opt_list(field_problem(vv, accepted_version, ("workshop.value.invalid"@, found_version@),
            "version is required"@, "version must appear exactly once"@)) == opt_list(version_problem(ev)));
    }
    let ghost s1 = out@.map_values(|d: Diagnostic| problem_of(d));

    let ids = field_values(entries, "id");
    let accepted_id = ids.len() == 1 && is_u64(ids[0].as_str());
    let found_id = if ids.len() == 1 { cat("id must be an unsigned integer, found ", ids[0].as_str()) } else { cat("id must be an unsigned integer, found ", "") };
    push_field_problem(out, path, &ids, accepted_id, "workshop.id.invalid", &found_id,
        &"id is required".to_owned(), &"id must appear exactly once".to_owned());
    proof {
        let iv = ids@.map_values(|s: String| s@);
        assert(opt_list(field_problem(iv, accepted_id, ("workshop.id.invalid"@, found_id@),
            "id is required"@, "id must appear exactly once"@)) == opt_list(id_problem(ev)));
    }
    let ghost s2 = out@.map_values(|d: Diagnostic| problem_of(d));

    let titles = field_values(entries, "title");
    let accepted_title = titles.len() == 1 && !is_blank_str(titles[0].as_str());
    push_field_problem(out, path, &titles, accepted_title, "workshop.value.empty", &cat("title", " must not be empty"),
        &cat("title", " is required"), &cat("title", " must appear exactly once"));
    proof {
        let tv = titles@.map_values(|s: String| s@);
        assert(opt_list(field_problem(tv, accepted_title, ("workshop.value.empty"@, "title"@ + " must not be empty"@),
            "title"@ + " is required"@, "title"@ + " must appear exactly once"@)) == opt_list(nonempty_problem(ev, "title"@)));
    }
    let ghost s3 = out@.map_values(|d: Diagnostic| problem_of(d));

    let tags = field_values(entries, "tags");
    let accepted_tags = tags.len() == 1 && !is_blank_str(tags[0].as_str());
    push_field_problem(out, path, &tags, accepted_tags, "workshop.value.empty", &cat("tags", " must not be empty"),
        &cat("tags", " is required"), &cat("tags", " must appear exactly once"));
    proof {
        let gv = tags@.map_values(|s: String| s@);
        assert(opt_list(field_problem(gv, accepted_tags, ("workshop.value.empty"@, "tags"@ + " must not be empty"@),
            "tags"@ + " is required"@, "tags"@ + " must appear exactly once"@)) == opt_list(nonempty_problem(ev, "tags"@)));
    }
    let ghost s4 = out@.map_values(|d: Diagnostic| problem_of(d));

    let vis = field_values(entries, "visibility");
    let accepted_vis = vis.len() == 1 && is_supported_visibility(vis[0].as_str());
    let found_vis = if vis.len() == 1 { cat("unsupported visibility: ", vis[0].as_str()) } else { cat("unsupported visibility: ", "") };
    push_field_problem(out, path, &vis, accepted_vis, "workshop.visibility.invalid", &found_vis,
        &"visibility is required".to_owned(), &"visibility must appear exactly once".to_owned());
    proof {
        let sv = vis@.map_values(|s: String| s@);
        assert(opt_list(field_problem(sv, accepted_vis, ("workshop.visibility.invalid"@, found_vis@),
            "visibility is required"@, "visibility must appear exactly once"@)) == opt_list(visibility_problem(ev)));
    }
}

/// Validates the supported `workshop.txt` fields and the description marker
/// of the metadata text read from `path`.
pub fn validate(path: &str, source: &str) -> (r: Vec<Diagnostic>)
    ensures
        r@.map_values(|d: Diagnostic| problem_of(d)) == workshop_problems(source@),
        all_at(r@, path@),
{
    let (entries, mut out) = scan_metadata_lines(path, source);
    push_field_problems(&mut out, path, &entries);
    proof {
        reveal_strlit("{{DESCRIPTION}}");
    }
    let ghost before_marker = out@.map_values(|d: Diagnostic| problem_of(d));
    if count_occurrences(source, "{{DESCRIPTION}}") != 1 {
        let m = "{{DESCRIPTION}} must appear exactly once".to_owned();
        out.push(problem_at("workshop.description_marker.invalid", path, &m));
        assert(out@.map_values(|d: Diagnostic| problem_of(d)) == before_marker.push(
            ("workshop.description_marker.invalid"@, "{{DESCRIPTION}} must appear exactly once"@)));
    }
    out
}

/// Whether every character of `s` is whitespace.
fn is_blank_str(s: &str) -> (r: bool)
    ensures
        r == (trim(s@).len() == 0),
{
    let v = chars_of(s);
    proof {
        lemma_trim_empty(s@);
        assert(v@.subrange(0, v@.len() as int) == v@);
    }
    is_blank(&v, 0, v.len())
}

} // verus!
