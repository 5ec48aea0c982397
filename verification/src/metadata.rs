//! Project Zomboid `mod.info` metadata: its fields and their rules.

use vstd::prelude::*;

use regex::Regex;

use crate::error::Error;
use crate::templates::push_range;
use crate::text::{
    chars_of, is_ascii_alnum, line_spans, lines, push_str, spans, split_once, str_eq, trim, trim_bounds,
};

verus! {

/// Identity and version of a mod, as one build's `mod.info` declares them.
#[derive(Debug, Clone)]
pub struct ModMetadata {
    /// Human-readable mod name.
    pub name: String,
    /// Game-facing mod identifier.
    pub id: String,
    /// Semantic version.
    pub version: String,
    /// Project Zomboid build whose metadata this is.
    pub build: String,
}

/// Whether the regular expression `pattern` compiles and matches somewhere
/// in `haystack`, as the `regex` crate decides.
pub uninterp spec fn regex_match(pattern: Seq<char>, haystack: Seq<char>) -> bool;

/// Compiles a regular expression and tests it (`Regex::new` then
/// `Regex::is_match`). The claim: the result is the named match; a pattern
/// that does not compile matches nothing.
#[verifier::external_body]
fn regex_is_match(pattern: &str, haystack: &str) -> (r: bool)
    ensures
        r == regex_match(pattern@, haystack@),
{
    Regex::new(pattern).map(|re| re.is_match(haystack)).unwrap_or(false)
}

/// The text of capture group 1 of the first match of the regular expression
/// `pattern` in `haystack`, as the `regex` crate finds it; `None` where the
/// pattern does not compile, nothing matches, or the group took no part.
pub uninterp spec fn regex_first_capture(pattern: Seq<char>, haystack: Seq<char>) -> Option<Seq<char>>;

/// Compiles a regular expression and reads group 1 of its first match
/// (`Regex::new`, `Regex::captures`, `Captures::get`). The claim: the
/// result is the named capture.
#[verifier::external_body]
pub(crate) fn regex_capture(pattern: &str, haystack: &str) -> (r: Option<String>)
    ensures
        match r {
            Some(s) => regex_first_capture(pattern@, haystack@) == Some(s@),
            None => regex_first_capture(pattern@, haystack@) is None,
        },
{
    let re = Regex::new(pattern).ok()?;
    re.captures(haystack).and_then(|c| c.get(1)).map(|m| m.as_str().to_owned())
}

/// The pattern of a `MAJOR.MINOR.PATCH` version.
pub open spec fn semver_pattern() -> Seq<char> {
    "^\\d+\\.\\d+\\.\\d+$"@
}

/// The trimmed value of the last line whose trimmed key is `key`: later
/// lines override earlier ones.
pub open spec fn last_field(ls: Seq<Seq<char>>, key: Seq<char>) -> Option<Seq<char>>
    decreases ls.len(),
{
    if ls.len() == 0 {
        None
    } else {
        match split_once(ls.last(), '=') {
            Some((k, v)) => if trim(k) == key {
                Some(trim(v))
            } else {
                last_field(ls.drop_last(), key)
            },
            None => last_field(ls.drop_last(), key),
        }
    }
}

/// Whether an identifier holds only ASCII letters, digits and underscores.
pub open spec fn valid_id_chars(id: Seq<char>) -> bool {
    forall|i: int| 0 <= i < id.len() ==> is_ascii_alnum(#[trigger] id[i]) || id[i] == '_'
}

/// Metadata as plain values: name, id, version, build.
pub type MetadataView = (Seq<char>, Seq<char>, Seq<char>, Seq<char>);

/// The metadata of one build, or the validation message, from the text read
/// at `path` (or the message of the read failure).
pub open spec fn metadata_outcome(path: Seq<char>, build: Seq<char>, source: Result<Seq<char>, Seq<char>>) -> Result<MetadataView, Seq<char>> {
    match source {
        Err(e) => Err(path + ": "@ + e),
        Ok(s) => {
            let ls = lines(s);
            match last_field(ls, "modversion"@) {
                None => Err(path + ": missing `modversion`"@),
                Some(version) => if !regex_match(semver_pattern(), version) {
                    Err(path + ": modversion `"@ + version + "` must use MAJOR.MINOR.PATCH"@)
                } else {
                    match last_field(ls, "id"@) {
                        None => Err(path + ": missing `id`"@),
                        Some(id) => if !valid_id_chars(id) {
                            Err(path + ": id `"@ + id + "` contains unsupported characters"@)
                        } else {
                            match last_field(ls, "name"@) {
                                None => Err(path + ": missing `name`"@),
                                Some(name) => Ok((name, id, version, build)),
                            }
                        },
                    }
                },
            }
        },
    }
}

/// Whether a character may appear in a mod ID: an ASCII letter, an ASCII
/// digit, or `_`.
pub open spec fn id_char(c: char) -> bool {
    ('a' <= c && c <= 'z') || ('A' <= c && c <= 'Z') || ('0' <= c && c <= '9') || c == '_'
}

/// Which IDs reading accepts: given a `mod.info` whose version, ID and name
/// fields are all present and whose version is `MAJOR.MINOR.PATCH`, reading
/// succeeds with that ID exactly when every character of the ID is an ASCII
/// letter, an ASCII digit or `_`; otherwise the ID is the reason it fails.
pub proof fn lemma_id_characters_decide(path: Seq<char>, build: Seq<char>, source: Seq<char>)
    requires
        last_field(lines(source), "modversion"@) matches Some(v) && regex_match(semver_pattern(), v),
        last_field(lines(source), "id"@) is Some,
        last_field(lines(source), "name"@) is Some,
    ensures
        ({
            let id = last_field(lines(source), "id"@)->Some_0;
            let outcome = metadata_outcome(path, build, Ok(source));
            &&& (forall|i: int| 0 <= i < id.len() ==> id_char(#[trigger] id[i])) ==> outcome == Ok::<MetadataView, Seq<char>>((
                last_field(lines(source), "name"@)->Some_0,
                id,
                last_field(lines(source), "modversion"@)->Some_0,
                build,
            ))
            &&& !(forall|i: int| 0 <= i < id.len() ==> id_char(#[trigger] id[i])) ==> outcome
                == Err::<MetadataView, Seq<char>>(path + ": id `"@ + id + "` contains unsupported characters"@)
        }),
{
    let id = last_field(lines(source), "id"@)->Some_0;
    assert((forall|i: int| 0 <= i < id.len() ==> id_char(#[trigger] id[i])) <==> valid_id_chars(id)) by {
        if valid_id_chars(id) {
            assert forall|i: int| 0 <= i < id.len() implies id_char(#[trigger] id[i]) by {
                assert(is_ascii_alnum(id[i]) || id[i] == '_');
            }
        }
        if forall|i: int| 0 <= i < id.len() ==> id_char(#[trigger] id[i]) {
            assert forall|i: int| 0 <= i < id.len() implies is_ascii_alnum(#[trigger] id[i]) || id[i] == '_' by {
                assert(id_char(id[i]));
            }
        }
    }
}

/// The plain values of metadata.
pub open spec fn metadata_view(m: ModMetadata) -> MetadataView {
    (m.name@, m.id@, m.version@, m.build@)
}

/// The trimmed key and value of the line `v[a..b]`, split at its first `=`.
fn split_field(v: &Vec<char>, a: usize, b: usize) -> (r: Option<(String, String)>)
    requires
        a <= b <= v.len(),
    ensures
        match split_once(v@.subrange(a as int, b as int), '=') {
            Some((k, x)) => r matches Some(p) && p.0@ == trim(k) && p.1@ == trim(x),
            None => r is None,
        },
{
    let ghost l = v@.subrange(a as int, b as int);
    let mut q = a;
    while q < b && v[q] != '='
        invariant
            a <= q <= b <= v.len(),
            forall|j: int| a <= j < q ==> v@[j] != '=',
        decreases b - q,
    {
        q = q + 1;
    }
    proof {
        assert forall|j: int| 0 <= j < q - a implies l[j] != '=' by {
            assert(l[j] == v@[a + j]);
        }
        if q < b {
            assert(l[q - a] == v@[q as int]);
        }
        crate::text::lemma_find_char_at(l, '=', q - a);
        if q < b {
            assert(l.take(q - a) == v@.subrange(a as int, q as int));
            assert(l.skip(q - a + 1) == v@.subrange(q + 1, b as int));
        }
    }
    if q < b {
        let (ka, kb) = trim_bounds(v, a, q);
        let mut key = String::new();
        push_range(&mut key, v, ka, kb);
        let (va, vb) = trim_bounds(v, q + 1, b);
        let mut value = String::new();
        push_range(&mut value, v, va, vb);
        Some((key, value))
    } else {
        None
    }
}

/// The trimmed value of the last `key=value` line for `key`.
pub fn required_field(source: &str, key: &str) -> (r: Option<String>)
    ensures
        match last_field(lines(source@), key@) {
            Some(x) => r matches Some(s) && s@ == x,
            None => r is None,
        },
{
    let v = chars_of(source);
    let sp = line_spans(&v);
    let ghost ls = spans(v@, sp@);
    let mut i = sp.len();
    assert(ls.take(sp.len() as int) == ls);
    while i > 0
        invariant
            i <= sp.len(),
            ls == spans(v@, sp@),
            ls == lines(source@),
            v@ == source@,
            forall|k: int| 0 <= k < sp.len() ==> #[trigger] sp@[k].0 <= sp@[k].1 <= v.len(),
            last_field(ls, key@) == last_field(ls.take(i as int), key@),
        decreases i,
    {
        let (a, b) = sp[i - 1];
        proof {
            assert(ls.take(i as int).last() == v@.subrange(a as int, b as int));
            assert(ls.take(i as int).drop_last() == ls.take(i - 1));
        }
        match split_field(&v, a, b) {
            Some((k, x)) => {
                if str_eq(k.as_str(), key) {
                    return Some(x);
                }
            },
            None => {},
        }
        i = i - 1;
    }
    None
}

fn is_valid_id(id: &str) -> (r: bool)
    ensures
        r == valid_id_chars(id@),
{
    let v = chars_of(id);
    let mut i: usize = 0;
    while i < v.len()
        invariant
            i <= v.len(),
            v@ == id@,
            forall|j: int| 0 <= j < i ==> is_ascii_alnum(#[trigger] v@[j]) || v@[j] == '_',
        decreases v.len() - i,
    {
        if !(crate::text::char_is_ascii_alnum(v[i]) || v[i] == '_') {
            return false;
        }
        i = i + 1;
    }
    true
}

fn message3(a: &str, b: &str, c: &str) -> (r: String)
    ensures
        r@ == a@ + b@ + c@,
{
    let mut s = String::new();
    push_str(&mut s, a);
    push_str(&mut s, b);
    push_str(&mut s, c);
    s
}

/// Reads one build's metadata from the text of its `mod.info` (or the
/// message of the failure to read it) at `path`.
pub fn read(path: &str, build: &str, source: Result<String, String>) -> (r: Result<ModMetadata, Error>)
    ensures
        match metadata_outcome(path@, build@, crate::description::text_result(source)) {
            Ok(m) => r matches Ok(x) && metadata_view(x) == m,
            Err(m) => r matches Err(e) && crate::description::is_validation_error(e, m),
        },
{
    proof {
        reveal_strlit("");
        reveal_strlit(": ");
        reveal_strlit(": missing `modversion`");
        reveal_strlit(": missing `id`");
        reveal_strlit(": missing `name`");
    }
    let source = match source {
        Err(e) => {
            return Err(Error::validation(message3(path, ": ", e.as_str()).as_str()));
        },
        Ok(s) => s,
    };
    let version = match required_field(source.as_str(), "modversion") {
        None => {
            proof { reveal_strlit(": missing `modversion`"); }
            return Err(Error::validation(message3(path, ": missing `modversion`", "").as_str()));
        },
        Some(v) => v,
    };
    if !regex_is_match("^\\d+\\.\\d+\\.\\d+$", version.as_str()) {
        let mut m = message3(path, ": modversion `", version.as_str());
        push_str(&mut m, "` must use MAJOR.MINOR.PATCH");
        return Err(Error::validation(m.as_str()));
    }
    let id = match required_field(source.as_str(), "id") {
        None => {
            proof { reveal_strlit(": missing `id`"); }
            return Err(Error::validation(message3(path, ": missing `id`", "").as_str()));
        },
        Some(v) => v,
    };
    if !is_valid_id(id.as_str()) {
        let mut m = message3(path, ": id `", id.as_str());
        push_str(&mut m, "` contains unsupported characters");
        return Err(Error::validation(m.as_str()));
    }
    let name = match required_field(source.as_str(), "name") {
        None => {
            proof { reveal_strlit(": missing `name`"); }
            return Err(Error::validation(message3(path, ": missing `name`", "").as_str()));
        },
        Some(v) => v,
    };
    Ok(ModMetadata { name, id, version, build: build.to_owned() })
}

} // verus!
