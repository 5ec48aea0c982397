//! Scaffold template rendering.

use vstd::prelude::*;

use crate::text::{chars_of, push_char, push_str};

verus! {

/// Index of the first `ab` pair in `s`.
pub open spec fn find_pair(s: Seq<char>, a: char, b: char) -> Option<int>
    decreases s.len(),
{
    if s.len() < 2 {
        None
    } else if s[0] == a && s[1] == b {
        Some(0)
    } else {
        match find_pair(s.drop_first(), a, b) {
            Some(i) => Some(i + 1),
            None => None,
        }
    }
}

pub proof fn lemma_find_pair(s: Seq<char>, a: char, b: char)
    ensures
        match find_pair(s, a, b) {
            Some(i) => 0 <= i && i + 1 < s.len() && s[i] == a && s[i + 1] == b && forall|j: int|
                0 <= j < i ==> !(#[trigger] s[j] == a && s[j + 1] == b),
            None => forall|j: int| 0 <= j && j + 1 < s.len() ==> !(#[trigger] s[j] == a && s[j + 1] == b),
        },
    decreases s.len(),
{
    if s.len() >= 2 && !(s[0] == a && s[1] == b) {
        lemma_find_pair(s.drop_first(), a, b);
        assert forall|j: int| 1 <= j < s.len() implies s[j] == s.drop_first()[j - 1] by {}
    }
}

proof fn lemma_find_pair_at(s: Seq<char>, a: char, b: char, k: int)
    requires
        0 <= k,
        forall|j: int| 0 <= j < k && j + 1 < s.len() ==> !(#[trigger] s[j] == a && s[j + 1] == b),
        k + 1 < s.len() ==> s[k] == a && s[k + 1] == b,
    ensures
        find_pair(s, a, b) == (if k + 1 < s.len() { Some(k) } else { None::<int> }),
{
    lemma_find_pair(s, a, b);
    match find_pair(s, a, b) {
        Some(i) => {
            if i > k && k + 1 < s.len() {
                assert(s[k] == a && s[k + 1] == b);
            }
        },
        None => {
            if k + 1 < s.len() {
                assert(s[k] == a && s[k + 1] == b);
            }
        },
    }
}

/// The value of the first pair whose key is `key`.
pub open spec fn lookup(values: Seq<(Seq<char>, Seq<char>)>, key: Seq<char>) -> Option<Seq<char>>
    decreases values.len(),
{
    if values.len() == 0 {
        None
    } else if values[0].0 == key {
        Some(values[0].1)
    } else {
        lookup(values.drop_first(), key)
    }
}

/// The rendering of `t`: each `{{key}}` with a known key becomes its value,
/// unknown markers stay as written, and substituted values are not scanned again.
pub open spec fn render_of(t: Seq<char>, values: Seq<(Seq<char>, Seq<char>)>) -> Seq<char>
    decreases t.len(),
{
    match find_pair(t, '{', '{') {
        None => t,
        Some(s) => {
            proof {
                lemma_find_pair(t, '{', '{');
            }
            let m = t.skip(s);
            match find_pair(m, '}', '}') {
                None => t,
                Some(e) => {
                    proof {
                        lemma_find_pair(m, '}', '}');
                    }
                    let key = m.subrange(2, e);
                    t.take(s) + (match lookup(values, key) {
                        Some(v) => v,
                        None => m.take(e + 2),
                    }) + render_of(m.skip(e + 2), values)
                },
            }
        },
    }
}

/// The key/value pairs as character sequences.
pub open spec fn pairs_view(values: Seq<(&str, &str)>) -> Seq<(Seq<char>, Seq<char>)> {
    values.map_values(|p: (&str, &str)| (p.0@, p.1@))
}

/// Position of the first `ab` pair in `v[from..]`, or `v.len()` when there is none.
fn find_pair_from(v: &Vec<char>, from: usize, a: char, b: char) -> (r: usize)
    requires
        from <= v.len(),
    ensures
        from <= r <= v.len(),
        find_pair(v@.skip(from as int), a, b) == (if r < v.len() {
            Some(r - from)
        } else {
            None::<int>
        }),
{
    let mut q = from;
    while v.len() - q >= 2 && !(v[q] == a && v[q + 1] == b)
        invariant
            from <= q <= v.len(),
            forall|j: int| from <= j < q && j + 1 < v.len() ==> !(#[trigger] v@[j] == a && v@[j + 1] == b),
        decreases v.len() - q,
    {
        q = q + 1;
    }
    let ghost t = v@.skip(from as int);
    proof {
        assert forall|j: int| 0 <= j < q - from && j + 1 < t.len() implies !(#[trigger] t[j] == a && t[j + 1]
            == b) by {
            assert(t[j] == v@[from + j] && t[j + 1] == v@[from + j + 1]);
        }
        if q + 1 < v.len() {
            assert(t[q - from] == v@[q as int] && t[q - from + 1] == v@[q + 1]);
        }
        lemma_find_pair_at(t, a, b, q - from);
    }
    if v.len() - q >= 2 {
        q
    } else {
        v.len()
    }
}

/// Whether `v[from..to]` equals the characters of `s`.
fn range_equals(v: &Vec<char>, from: usize, to: usize, s: &str) -> (r: bool)
    requires
        from <= to <= v.len(),
    ensures
        r == (v@.subrange(from as int, to as int) == s@),
{
    let c = chars_of(s);
    if c.len() != to - from {
        return false;
    }
    let mut i: usize = 0;
    while i < c.len()
        invariant
            i <= c.len() == to - from,
            from <= to <= v.len(),
            c@ == s@,
            forall|j: int| 0 <= j < i ==> c@[j] == v@[from + j],
        decreases c.len() - i,
    {
        if c[i] != v[from + i] {
            assert(v@.subrange(from as int, to as int)[i as int] != c@[i as int]);
            return false;
        }
        i = i + 1;
    }
    assert(v@.subrange(from as int, to as int) =~= c@);
    true
}

/// Index of the first pair whose key is `v[from..to]`.
fn lookup_key(values: &[(&str, &str)], v: &Vec<char>, from: usize, to: usize) -> (r: Option<usize>)
    requires
        from <= to <= v.len(),
    ensures
        match r {
            Some(i) => i < values@.len() && lookup(pairs_view(values@), v@.subrange(from as int, to as int)) == Some(values@[i as int].1@),
            None => lookup(pairs_view(values@), v@.subrange(from as int, to as int)) is None,
        },
{
    let ghost key = v@.subrange(from as int, to as int);
    let mut i: usize = 0;
    assert(pairs_view(values@).skip(0) == pairs_view(values@));
    while i < values.len()
        invariant
            i <= values.len(),
            from <= to <= v.len(),
            key == v@.subrange(from as int, to as int),
            lookup(pairs_view(values@), key) == lookup(pairs_view(values@).skip(i as int), key),
        decreases values.len() - i,
    {
        let ghost rest = pairs_view(values@).skip(i as int);
        assert(rest[0] == (values@[i as int].0@, values@[i as int].1@));
        if range_equals(v, from, to, values[i].0) {
            return Some(i);
        }
        assert(rest.drop_first() == pairs_view(values@).skip(i + 1));
        i = i + 1;
    }
    None
}

/// One step of rendering: the text before the first marker, its replacement,
/// and the rendering of the rest.
proof fn lemma_render_step(t: Seq<char>, vals: Seq<(Seq<char>, Seq<char>)>, s: int, e: int)
    requires
        find_pair(t, '{', '{') == Some(s),
        find_pair(t.skip(s), '}', '}') == Some(e),
    ensures
        e >= 2,
        0 <= s,
        s + e + 2 <= t.len(),
        render_of(t, vals) == t.take(s) + (match lookup(vals, t.skip(s).subrange(2, e)) {
            Some(v) => v,
            None => t.skip(s).take(e + 2),
        }) + render_of(t.skip(s).skip(e + 2), vals),
{
    lemma_find_pair(t, '{', '{');
    let m = t.skip(s);
    assert(m[0] == '{' && m[1] == '{');
    lemma_find_pair(m, '}', '}');
}

/// Appends `v[from..to]` to `out`.
pub fn push_range(out: &mut String, v: &Vec<char>, from: usize, to: usize)
    requires
        from <= to <= v.len(),
    ensures
        final(out)@ == old(out)@ + v@.subrange(from as int, to as int),
{
    let mut i = from;
    while i < to
        invariant
            from <= i <= to <= v.len(),
            out@ == old(out)@ + v@.subrange(from as int, i as int),
        decreases to - i,
    {
        push_char(out, v[i]);
        assert(v@.subrange(from as int, i + 1) == v@.subrange(from as int, i as int).push(v@[i as int]));
        i = i + 1;
    }
}

/// Replaces each `{{key}}` marker whose key has a supplied value; unknown
/// markers stay as written, and substituted values are not scanned again.
pub fn render(template: &str, values: &[(&str, &str)]) -> (r: String)
    ensures
        r@ == render_of(template@, pairs_view(values@)),
{
    let v = chars_of(template);
    let ghost vals = pairs_view(values@);
    let mut out = String::new();
    let mut p: usize = 0;
    assert(v@.skip(0) == v@);
    loop
        invariant
            p <= v.len(),
            v@ == template@,
            vals == pairs_view(values@),
            render_of(v@, vals) == out@ + render_of(v@.skip(p as int), vals),
        decreases v.len() - p,
    {
        let ghost t = v@.skip(p as int);
        assert(t == v@.subrange(p as int, v.len() as int));
        let s = find_pair_from(&v, p, '{', '{');
        if s >= v.len() {
            push_range(&mut out, &v, p, v.len());
            return out;
        }
        let e = find_pair_from(&v, s, '}', '}');
        let ghost m = t.skip(s - p);
        assert(m == v@.skip(s as int));
        if e >= v.len() {
            push_range(&mut out, &v, p, v.len());
            return out;
        }
        proof {
            lemma_render_step(t, vals, s - p, e - s);
            assert(t.take(s - p) == v@.subrange(p as int, s as int));
            assert(m.subrange(2, e - s) == v@.subrange(s + 2, e as int));
            assert(m.take(e - s + 2) == v@.subrange(s as int, e + 2));
            assert(m.skip(e - s + 2) == v@.skip(e + 2));
        }
        push_range(&mut out, &v, p, s);
        match lookup_key(values, &v, s + 2, e) {
            Some(i) => {
                push_str(&mut out, values[i].1);
            },
            None => {
                push_range(&mut out, &v, s, e + 2);
            },
        }
        p = e + 2;
    }
}

} // verus!
