//! Scaffold naming derivation and metadata-safe text validation.

use vstd::prelude::*;

use crate::error::{Error, ErrorKind};
use crate::text::{
    all_white, chars_of, char_is_ascii_alnum, char_is_control, is_ascii_alnum, is_blank,
    is_control, lemma_trim_empty, push_char, push_str, trim,
};

verus! {

/// Whether `c` separates the words of a directory slug.
pub open spec fn is_slug_separator(c: char) -> bool {
    c == '-' || c == '_'
}

/// Index of the first separator in `s`.
pub open spec fn find_separator(s: Seq<char>) -> Option<int>
    decreases s.len(),
{
    if s.len() == 0 {
        None
    } else if is_slug_separator(s[0]) {
        Some(0)
    } else {
        match find_separator(s.drop_first()) {
            Some(i) => Some(i + 1),
            None => None,
        }
    }
}

pub proof fn lemma_find_separator(s: Seq<char>)
    ensures
        match find_separator(s) {
            Some(i) => 0 <= i < s.len() && is_slug_separator(s[i]) && forall|j: int|
                0 <= j < i ==> !is_slug_separator(s[j]),
            None => forall|j: int| 0 <= j < s.len() ==> !is_slug_separator(s[j]),
        },
    decreases s.len(),
{
    if s.len() > 0 && !is_slug_separator(s[0]) {
        lemma_find_separator(s.drop_first());
        assert forall|j: int| 1 <= j < s.len() implies s[j] == s.drop_first()[j - 1] by {}
    }
}

proof fn lemma_find_separator_at(s: Seq<char>, k: int)
    requires
        0 <= k <= s.len(),
        forall|j: int| 0 <= j < k ==> !is_slug_separator(s[j]),
        k < s.len() ==> is_slug_separator(s[k]),
    ensures
        find_separator(s) == (if k < s.len() { Some(k) } else { None::<int> }),
{
    lemma_find_separator(s);
    match find_separator(s) {
        Some(i) => {
            if i > k {
                assert(is_slug_separator(s[k]));
            }
        },
        None => {
            if k < s.len() {
                assert(is_slug_separator(s[k]));
            }
        },
    }
}

/// The non-empty runs of a slug between `-` and `_` separators.
pub open spec fn slug_words(s: Seq<char>) -> Seq<Seq<char>>
    decreases s.len(),
{
    if s.len() == 0 {
        seq![]
    } else {
        match find_separator(s) {
            Some(i) => {
                proof {
                    lemma_find_separator(s);
                }
                (if i > 0 {
                    seq![s.take(i)]
                } else {
                    seq![]
                }) + slug_words(s.skip(i + 1))
            },
            None => seq![s],
        }
    }
}

/// The characters that `char::to_uppercase` yields for `c`.
pub uninterp spec fn char_upper(c: char) -> Seq<char>;

/// Uppercases one character (`char::to_uppercase`). The Unicode mapping is
/// named, not written out; the documented ASCII cases are stated.
#[verifier::external_body]
pub(crate) fn uppercase(c: char) -> (r: String)
    ensures
        r@ == char_upper(c),
        'a' <= c <= 'z' ==> r@ == seq![((c as u32) - 32) as char],
        (c as u32) < 128 && !('a' <= c <= 'z') ==> r@ == seq![c],
{
    c.to_uppercase().collect()
}

/// A word with its first character uppercased.
pub open spec fn capitalize(w: Seq<char>) -> Seq<char> {
    if w.len() == 0 {
        w
    } else {
        char_upper(w[0]) + w.drop_first()
    }
}

/// Words joined with single spaces.
pub open spec fn join_words(ws: Seq<Seq<char>>) -> Seq<char>
    decreases ws.len(),
{
    if ws.len() == 0 {
        Seq::empty()
    } else if ws.len() == 1 {
        ws[0]
    } else {
        join_words(ws.drop_last()) + " "@ + ws.last()
    }
}

/// The human-readable name derived from a directory slug.
pub open spec fn display_name_of(slug: Seq<char>) -> Seq<char> {
    join_words(slug_words(slug).map_values(|w: Seq<char>| capitalize(w)))
}

/// Whether every character of a text is ASCII.
pub open spec fn is_ascii_text(s: Seq<char>) -> bool {
    forall|i: int| 0 <= i < s.len() ==> (#[trigger] s[i] as u32) < 128
}

/// The uppercase of an ASCII character: a lowercase letter becomes its
/// capital, any other character stays.
pub open spec fn ascii_upper(c: char) -> Seq<char> {
    if 'a' <= c <= 'z' {
        seq![((c as u32) - 32) as char]
    } else {
        seq![c]
    }
}

/// An ASCII word with its first letter capitalized.
pub open spec fn capitalize_ascii(w: Seq<char>) -> Seq<char> {
    if w.len() == 0 {
        w
    } else {
        ascii_upper(w[0]) + w.drop_first()
    }
}

/// The human-readable name derived from an ASCII directory slug.
pub open spec fn ascii_display_name_of(slug: Seq<char>) -> Seq<char> {
    join_words(slug_words(slug).map_values(|w: Seq<char>| capitalize_ascii(w)))
}

/// `s` with every occurrence of `c` removed.
pub open spec fn remove_char(s: Seq<char>, c: char) -> Seq<char> {
    s.filter(|x: char| x != c)
}

/// The game-facing identifier derived from a directory slug.
pub open spec fn mod_id_of(slug: Seq<char>) -> Seq<char> {
    remove_char(display_name_of(slug), ' ')
}

/// Spans of the words of `v`.
#[verifier::spinoff_prover]
fn word_spans(v: &Vec<char>) -> (r: Vec<(usize, usize)>)
    ensures
        crate::text::spans(v@, r@) == slug_words(v@),
        forall|k: int| 0 <= k < r.len() ==> #[trigger] r@[k].0 < r@[k].1 <= v.len(),
{
    let mut out: Vec<(usize, usize)> = Vec::new();
    let mut p: usize = 0;
    assert(v@.skip(0) == v@);
    while p < v.len()
        invariant
            p <= v.len(),
            slug_words(v@) == crate::text::spans(v@, out@) + slug_words(v@.skip(p as int)),
            forall|k: int| 0 <= k < out.len() ==> #[trigger] out@[k].0 < out@[k].1 <= v.len(),
        decreases v.len() - p,
    {
        let mut q = p;
        while q < v.len() && v[q] != '-' && v[q] != '_'
            invariant
                p <= q <= v.len(),
                forall|j: int| p <= j < q ==> !is_slug_separator(#[trigger] v@[j]),
            decreases v.len() - q,
        {
            q = q + 1;
        }
        let ghost t = v@.skip(p as int);
        let ghost before = crate::text::spans(v@, out@);
        proof {
            assert forall|j: int| 0 <= j < q - p implies !is_slug_separator(t[j]) by {
                assert(t[j] == v@[p + j]);
            }
            if q < v.len() {
                assert(t[q - p] == v@[q as int]);
            }
            lemma_find_separator_at(t, q - p);
            assert(t.take(q - p) == v@.subrange(p as int, q as int));
        }
        if q > p {
            let ghost prev = out@;
            out.push((p, q));
            assert(forall|k: int| 0 <= k < prev.len() ==> #[trigger] out@[k] == prev[k]);
            assert(crate::text::spans(v@, out@) == before.push(v@.subrange(p as int, q as int)));
        }
        if q < v.len() {
            proof {
                assert(t.skip(q - p + 1) == v@.skip(q + 1));
                if q == p {
                    assert(seq![] + slug_words(t.skip(q - p + 1)) == slug_words(t.skip(q - p + 1)));
                }
            }
            p = q + 1;
        } else {
            proof {
                assert(t == v@.subrange(p as int, v.len() as int));
                assert(v@.skip(v.len() as int).len() == 0);
            }
            p = v.len();
        }
    }
    proof {
        assert(v@.skip(p as int).len() == 0);
        assert(crate::text::spans(v@, out@) + Seq::<Seq<char>>::empty() == crate::text::spans(v@, out@));
    }
    out
}

/// Derives a human-readable mod name from a directory slug:
/// `connected-storage` becomes `Connected Storage`.
pub fn display_name(slug: &str) -> (r: String)
    ensures
        r@ == display_name_of(slug@),
        is_ascii_text(slug@) ==> r@ == ascii_display_name_of(slug@),
{
    let v = chars_of(slug);
    let words = word_spans(&v);
    let ghost caps = crate::text::spans(v@, words@).map_values(|w: Seq<char>| capitalize(w));
    let ghost acaps = crate::text::spans(v@, words@).map_values(|w: Seq<char>| capitalize_ascii(w));
    let mut out = String::new();
    let mut i: usize = 0;
    while i < words.len()
        invariant
            i <= words.len(),
            v@ == slug@,
            caps == crate::text::spans(v@, words@).map_values(|w: Seq<char>| capitalize(w)),
            acaps == crate::text::spans(v@, words@).map_values(|w: Seq<char>| capitalize_ascii(w)),
            forall|k: int| 0 <= k < words.len() ==> #[trigger] words@[k].0 < words@[k].1 <= v.len(),
            out@ == join_words(caps.take(i as int)),
            is_ascii_text(slug@) ==> forall|k: int| 0 <= k < i ==> #[trigger] caps[k] == acaps[k],
        decreases words.len() - i,
    {
        let (a, b) = words[i];
        let ghost w = v@.subrange(a as int, b as int);
        assert(caps[i as int] == capitalize(w));
        if i > 0 {
            push_str(&mut out, " ");
        }
        let up = uppercase(v[a]);
        push_str(&mut out, up.as_str());
        let mut j = a + 1;
        while j < b
            invariant
                a < j <= b <= v.len(),
                out@ == (if i > 0 { join_words(caps.take(i as int)) + " "@ } else { join_words(caps.take(i as int)) })
                    + char_upper(v@[a as int]) + v@.subrange(a + 1, j as int),
            decreases b - j,
        {
            push_char(&mut out, v[j]);
            assert(v@.subrange(a + 1, j + 1) == v@.subrange(a + 1, j as int).push(v@[j as int]));
            j = j + 1;
        }
        proof {
            assert(w.drop_first() == v@.subrange(a + 1, b as int));
            assert(w[0] == v@[a as int]);
            assert(acaps[i as int] == capitalize_ascii(w));
            if is_ascii_text(slug@) {
                assert((v@[a as int] as u32) < 128);
                assert(char_upper(v@[a as int]) == ascii_upper(v@[a as int]));
            }
            let now = caps.take(i + 1);
            assert(now.drop_last() == caps.take(i as int));
            assert(now.last() == caps[i as int]);
            if i == 0 {
                assert(caps.take(0).len() == 0);
                assert(join_words(now) == now[0]);
            }
        }
        i = i + 1;
    }
    assert(caps.take(words.len() as int) == caps);
    proof {
        if is_ascii_text(slug@) {
            assert(caps =~= acaps);
        }
    }
    out
}

/// Derives a game-facing mod identifier from a directory slug:
/// `connected-storage` becomes `ConnectedStorage`.
pub fn mod_id(slug: &str) -> (r: String)
    ensures
        r@ == mod_id_of(slug@),
        is_ascii_text(slug@) ==> r@ == remove_char(ascii_display_name_of(slug@), ' '),
{
    let name = display_name(slug);
    let v = chars_of(name.as_str());
    let mut out = String::new();
    let mut i: usize = 0;
    while i < v.len()
        invariant
            i <= v.len(),
            out@ == remove_char(v@.take(i as int), ' '),
        decreases v.len() - i,
    {
        proof {
            assert(v@.take(i + 1).drop_last() == v@.take(i as int));
            reveal_with_fuel(Seq::filter, 1);
        }
        if v[i] != ' ' {
            push_char(&mut out, v[i]);
        }
        i = i + 1;
    }
    assert(v@.take(v.len() as int) == v@);
    out
}

/// Whether `id` is a valid mod identifier: non-empty ASCII letters, digits, and `_`.
pub open spec fn valid_mod_id(id: Seq<char>) -> bool {
    id.len() > 0 && forall|i: int| 0 <= i < id.len() ==> is_ascii_alnum(#[trigger] id[i]) || id[i] == '_'
}

/// Requires a non-empty identifier of ASCII letters, digits, and underscores.
pub fn validate_id(id: &str) -> (r: Result<(), Error>)
    ensures
        r is Ok <==> valid_mod_id(id@),
        r matches Err(e) ==> e.kind == ErrorKind::Project && e.message@
            == "mod ID must contain only ASCII letters, digits, and underscores"@,
{
    let v = chars_of(id);
    let mut ok = v.len() > 0;
    let mut i: usize = 0;
    while i < v.len()
        invariant
            i <= v.len(),
            v@ == id@,
            ok == (v.len() > 0 && forall|j: int| 0 <= j < i ==> is_ascii_alnum(#[trigger] v@[j]) || v@[j] == '_'),
        decreases v.len() - i,
    {
        if !(char_is_ascii_alnum(v[i]) || v[i] == '_') {
            ok = false;
        }
        i = i + 1;
    }
    if ok {
        Ok(())
    } else {
        Err(Error::project("mod ID must contain only ASCII letters, digits, and underscores"))
    }
}

/// Whether `s` contains a control character.
pub open spec fn has_control(s: Seq<char>) -> bool {
    exists|i: int| 0 <= i < s.len() && is_control(#[trigger] s[i])
}

/// Requires non-blank text without control characters in a metadata field.
pub fn validate_text(field: &str, value: &str) -> (r: Result<(), Error>)
    ensures
        r is Ok <==> trim(value@).len() > 0 && !has_control(value@),
        r matches Err(e) ==> e.kind == ErrorKind::Project && e.message@ == (if trim(value@).len()
            == 0 {
            field@ + " must not be empty"@
        } else {
            field@ + " must not contain control characters"@
        }),
{
    let v = chars_of(value);
    proof {
        lemma_trim_empty(value@);
        assert(v@.subrange(0, v@.len() as int) == v@);
    }
    if is_blank(&v, 0, v.len()) {
        let mut m = field.to_owned();
        push_str(&mut m, " must not be empty");
        return Err(Error::project(m.as_str()));
    }
    let mut i: usize = 0;
    while i < v.len()
        invariant
            i <= v.len(),
            v@ == value@,
            trim(value@).len() > 0,
            forall|j: int| 0 <= j < i ==> !is_control(#[trigger] v@[j]),
        decreases v.len() - i,
    {
        if char_is_control(v[i]) {
            let mut m = field.to_owned();
            push_str(&mut m, " must not contain control characters");
            return Err(Error::project(m.as_str()));
        }
        i = i + 1;
    }
    Ok(())
}

} // verus!
