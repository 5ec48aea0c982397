//! Relative artifact paths written with `/` separators, and their order.
//!
//! A relative path made of normal components is held as its components
//! joined with `/`. Comparing such strings with `/` ranked below every other
//! character orders them exactly as their components compare one by one,
//! which is the order in which `Path` values sort.

use vstd::prelude::*;

use crate::text::chars_of;

verus! {

/// Order of two distinct path characters: the separator sorts first.
pub open spec fn path_char_lt(a: char, b: char) -> bool {
    if a == '/' {
        b != '/'
    } else if b == '/' {
        false
    } else {
        a < b
    }
}

/// Strict path order on `/`-separated relative paths.
pub open spec fn path_lt(a: Seq<char>, b: Seq<char>) -> bool
    decreases a.len(),
{
    if a.len() == 0 {
        b.len() > 0
    } else if b.len() == 0 {
        false
    } else if a[0] != b[0] {
        path_char_lt(a[0], b[0])
    } else {
        path_lt(a.drop_first(), b.drop_first())
    }
}

/// Path order is irreflexive.
pub proof fn lemma_path_lt_irreflexive(a: Seq<char>)
    ensures
        !path_lt(a, a),
    decreases a.len(),
{
    if a.len() > 0 {
        lemma_path_lt_irreflexive(a.drop_first());
    }
}

/// Path order is transitive.
pub proof fn lemma_path_lt_transitive(a: Seq<char>, b: Seq<char>, c: Seq<char>)
    requires
        path_lt(a, b),
        path_lt(b, c),
    ensures
        path_lt(a, c),
    decreases a.len(),
{
    if a.len() > 0 && b.len() > 0 && c.len() > 0 {
        if a[0] == b[0] && b[0] == c[0] {
            lemma_path_lt_transitive(a.drop_first(), b.drop_first(), c.drop_first());
        }
    }
}

/// Path order is total on distinct paths.
pub proof fn lemma_path_lt_total(a: Seq<char>, b: Seq<char>)
    ensures
        a == b || path_lt(a, b) || path_lt(b, a),
    decreases a.len(),
{
    if a.len() > 0 && b.len() > 0 {
        if a[0] == b[0] {
            lemma_path_lt_total(a.drop_first(), b.drop_first());
            if a.drop_first() == b.drop_first() {
                assert(a.drop_first().len() == a.len() - 1);
                assert(b.drop_first().len() == b.len() - 1);
                assert(a.len() == b.len());
                assert forall|i: int| 0 <= i < a.len() implies a[i] == b[i] by {
                    if i > 0 {
                        assert(a[i] == a.drop_first()[i - 1]);
                        assert(b[i] == b.drop_first()[i - 1]);
                    }
                }
                assert(a =~= b);
            }
        } else {
            assert(path_char_lt(a[0], b[0]) || path_char_lt(b[0], a[0]));
        }
    } else if a.len() == 0 && b.len() == 0 {
        assert(a =~= b);
    }
}

/// Path order is asymmetric.
pub proof fn lemma_path_lt_asymmetric(a: Seq<char>, b: Seq<char>)
    requires
        path_lt(a, b),
    ensures
        !path_lt(b, a),
{
    if path_lt(b, a) {
        lemma_path_lt_transitive(a, b, a);
        lemma_path_lt_irreflexive(a);
    }
}

/// Whether `s` is strictly increasing in path order.
pub open spec fn sorted_paths(s: Seq<Seq<char>>) -> bool {
    forall|i: int, j: int| 0 <= i < j < s.len() ==> path_lt(#[trigger] s[i], #[trigger] s[j])
}

/// Whether `a` sorts before `b`.
pub fn path_less(a: &str, b: &str) -> (r: bool)
    ensures
        r == path_lt(a@, b@),
{
    let x = chars_of(a);
    let y = chars_of(b);
    let mut i: usize = 0;
    assert(x@.skip(0) == x@ && y@.skip(0) == y@);
    while i < x.len() && i < y.len() && x[i] == y[i]
        invariant
            i <= x.len(),
            i <= y.len(),
            x@ == a@,
            y@ == b@,
            path_lt(a@, b@) == path_lt(x@.skip(i as int), y@.skip(i as int)),
        decreases x.len() - i,
    {
        assert(x@.skip(i as int).drop_first() == x@.skip(i + 1));
        assert(y@.skip(i as int).drop_first() == y@.skip(i + 1));
        i = i + 1;
    }
    if i == x.len() {
        return i < y.len();
    }
    if i == y.len() {
        return false;
    }
    assert(x@.skip(i as int)[0] == x@[i as int] && y@.skip(i as int)[0] == y@[i as int]);
    if x[i] == '/' {
        y[i] != '/'
    } else if y[i] == '/' {
        false
    } else {
        x[i] < y[i]
    }
}

/// Whether a list of paths is strictly increasing in path order.
pub fn are_sorted_paths(v: &Vec<String>) -> (r: bool)
    ensures
        r == sorted_paths(v@.map_values(|s: String| s@)),
{
    let ghost s = v@.map_values(|s: String| s@);
    if v.len() < 2 {
        return true;
    }
    let mut i: usize = 1;
    while i < v.len()
        invariant
            1 <= i <= v.len(),
            s == v@.map_values(|s: String| s@),
            sorted_paths(s.take(i as int)),
        decreases v.len() - i,
    {
        if !path_less(v[i - 1].as_str(), v[i].as_str()) {
            assert(!path_lt(s[i - 1], s[i as int]));
            return false;
        }
        proof {
            assert forall|a: int, b: int| 0 <= a < b < i + 1 implies path_lt(
                #[trigger] s.take(i + 1)[a],
                #[trigger] s.take(i + 1)[b],
            ) by {
                if b < i {
                    assert(s.take(i as int)[a] == s[a] && s.take(i as int)[b] == s[b]);
                } else if a < i - 1 {
                    assert(s.take(i as int)[a] == s[a] && s.take(i as int)[i - 1] == s[i - 1]);
                    lemma_path_lt_transitive(s[a], s[i - 1], s[b]);
                }
            }
        }
        i = i + 1;
    }
    assert(s.take(v.len() as int) == s);
    true
}


/// The plain values of a list of strings.
pub open spec fn strs(v: Seq<String>) -> Seq<Seq<char>> {
    v.map_values(|s: String| s@)
}

/// A copy of a list of paths.
pub(crate) fn copy_paths(v: &Vec<String>) -> (r: Vec<String>)
    ensures
        strs(r@) == strs(v@),
{
    let mut r: Vec<String> = Vec::new();
    let mut i: usize = 0;
    while i < v.len()
        invariant
            i <= v.len(),
            strs(r@) == strs(v@).take(i as int),
        decreases v.len() - i,
    {
        let ghost before = strs(r@);
        r.push(v[i].clone());
        assert(strs(r@) == before.push(v@[i as int]@));
        assert(strs(v@).take(i + 1) == strs(v@).take(i as int).push(v@[i as int]@));
        i = i + 1;
    }
    assert(strs(v@).take(v.len() as int) == strs(v@));
    r
}

/// Whether `v` holds `x`.
pub fn contains_path(v: &Vec<String>, x: &str) -> (r: bool)
    ensures
        r == strs(v@).contains(x@),
{
    let mut i: usize = 0;
    while i < v.len()
        invariant
            i <= v.len(),
            forall|j: int| 0 <= j < i ==> strs(v@)[j] != x@,
        decreases v.len() - i,
    {
        if crate::text::str_eq(v[i].as_str(), x) {
            assert(strs(v@)[i as int] == x@);
            return true;
        }
        i = i + 1;
    }
    false
}

/// The elements of `a` that `b` holds or lacks, in the order of `a`.
pub open spec fn filter_by_membership(a: Seq<Seq<char>>, b: Seq<Seq<char>>, keep_present: bool) -> Seq<Seq<char>>
    decreases a.len(),
{
    if a.len() == 0 {
        seq![]
    } else {
        let rest = filter_by_membership(a.drop_last(), b, keep_present);
        if b.contains(a.last()) == keep_present {
            rest.push(a.last())
        } else {
            rest
        }
    }
}

pub proof fn lemma_filter_by_membership(a: Seq<Seq<char>>, b: Seq<Seq<char>>, keep_present: bool)
    ensures
        forall|x: Seq<char>| #[trigger] filter_by_membership(a, b, keep_present).contains(x) <==> (a.contains(x) && b.contains(x) == keep_present),
        sorted_paths(a) ==> sorted_paths(filter_by_membership(a, b, keep_present)),
        filter_by_membership(a, b, keep_present).len() <= a.len(),
    decreases a.len(),
{
    if a.len() > 0 {
        let p = a.drop_last();
        lemma_filter_by_membership(p, b, keep_present);
        let f = filter_by_membership(a, b, keep_present);
        let fr = filter_by_membership(p, b, keep_present);
        assert forall|x: Seq<char>| #[trigger] f.contains(x) <==> (a.contains(x) && b.contains(x) == keep_present) by {
            if a.contains(x) {
                let k = choose|k: int| 0 <= k < a.len() && a[k] == x;
                if k < a.len() - 1 {
                    assert(p[k] == x);
                }
            }
            if p.contains(x) {
                let k = choose|k: int| 0 <= k < p.len() && p[k] == x;
                assert(a[k] == x);
            }
            if b.contains(a.last()) == keep_present {
                assert(f == fr.push(a.last()));
                if fr.contains(x) {
                    let k = choose|k: int| 0 <= k < fr.len() && fr[k] == x;
                    assert(f[k] == x);
                }
                if f.contains(x) {
                    let k = choose|k: int| 0 <= k < f.len() && f[k] == x;
                    if k < fr.len() {
                        assert(fr[k] == x);
                    }
                }
                assert(f[fr.len() as int] == a.last());
            }
        }
        if sorted_paths(a) {
            assert(sorted_paths(p)) by {
                assert forall|i: int, j: int| 0 <= i < j < p.len() implies path_lt(#[trigger] p[i], #[trigger] p[j]) by {
                    assert(p[i] == a[i] && p[j] == a[j]);
                }
            }
            if b.contains(a.last()) == keep_present {
                assert forall|i: int, j: int| 0 <= i < j < f.len() implies path_lt(#[trigger] f[i], #[trigger] f[j]) by {
                    if j < fr.len() {
                        assert(f[i] == fr[i] && f[j] == fr[j]);
                    } else {
                        assert(fr.contains(f[i]));
                        assert(p.contains(f[i]));
                        let k = choose|k: int| 0 <= k < p.len() && p[k] == f[i];
                        assert(a[k] == f[i]);
                        assert(f[j] == a[a.len() - 1]);
                    }
                }
            }
        }
    }
}

/// The elements of `a` that `b` holds (`present`) or lacks, in the order of `a`.
pub fn select_by_membership(a: &Vec<String>, b: &Vec<String>, present: bool) -> (r: Vec<String>)
    ensures
        strs(r@) == filter_by_membership(strs(a@), strs(b@), present),
{
    let ghost sa = strs(a@);
    let ghost sb = strs(b@);
    let mut r: Vec<String> = Vec::new();
    let mut i: usize = 0;
    while i < a.len()
        invariant
            i <= a.len(),
            sa == strs(a@),
            sb == strs(b@),
            strs(r@) == filter_by_membership(sa.take(i as int), sb, present),
        decreases a.len() - i,
    {
        assert(sa.take(i + 1).drop_last() == sa.take(i as int));
        assert(sa.take(i + 1).last() == a@[i as int]@);
        if contains_path(b, a[i].as_str()) == present {
            let ghost before = strs(r@);
            r.push(a[i].clone());
            assert(strs(r@) == before.push(a@[i as int]@));
        }
        i = i + 1;
    }
    assert(sa.take(a.len() as int) == sa);
    r
}

/// Merges two sorted lists without common elements into one sorted list.
pub fn merge_sorted(a: &Vec<String>, b: &Vec<String>) -> (r: Vec<String>)
    requires
        sorted_paths(strs(a@)),
        sorted_paths(strs(b@)),
        forall|x: Seq<char>| strs(a@).contains(x) ==> !strs(b@).contains(x),
    ensures
        sorted_paths(strs(r@)),
        forall|x: Seq<char>| #[trigger] strs(r@).contains(x) <==> (strs(a@).contains(x) || strs(b@).contains(x)),
{
    let ghost sa = strs(a@);
    let ghost sb = strs(b@);
    let mut r: Vec<String> = Vec::new();
    let mut i: usize = 0;
    let mut j: usize = 0;
    while i < a.len() || j < b.len()
        invariant
            i <= a.len(),
            j <= b.len(),
            sa == strs(a@),
            sb == strs(b@),
            sorted_paths(sa),
            sorted_paths(sb),
            forall|x: Seq<char>| sa.contains(x) ==> !sb.contains(x),
            sorted_paths(strs(r@)),
            forall|x: Seq<char>| #[trigger] strs(r@).contains(x) <==> (sa.take(i as int).contains(x) || sb.take(j as int).contains(x)),
            forall|k: int| 0 <= k < r.len() ==> (i < a.len() ==> path_lt(#[trigger] strs(r@)[k], sa[i as int])) && (j < b.len() ==> path_lt(strs(r@)[k], sb[j as int])),
        decreases a.len() + b.len() - i - j,
    {
        let take_a = if i < a.len() && j < b.len() {
            path_less(a[i].as_str(), b[j].as_str())
        } else {
            i < a.len()
        };
        let ghost before = strs(r@);
        let ghost oi = i as int;
        let ghost oj = j as int;
        let ghost x: Seq<char> = if take_a { sa[oi] } else { sb[oj] };
        proof {
            if i < a.len() && j < b.len() {
                lemma_path_lt_total(sa[oi], sb[oj]);
                if sa[oi] == sb[oj] {
                    assert(sa.contains(sa[oi]));
                    assert(sb.contains(sa[oi]));
                }
            }
        }
        if take_a {
            r.push(a[i].clone());
            i = i + 1;
        } else {
            r.push(b[j].clone());
            j = j + 1;
        }
        proof {
            let nr = strs(r@);
            assert(nr == before.push(x));
            assert(nr[before.len() as int] == x);
            if i < a.len() {
                if take_a {
                    assert(path_lt(sa[oi], sa[i as int]));
                }
                assert(path_lt(x, sa[i as int]));
            }
            if j < b.len() {
                if !take_a {
                    assert(path_lt(sb[oj], sb[j as int]));
                }
                assert(path_lt(x, sb[j as int]));
            }
            assert forall|k: int| 0 <= k < r.len() implies (i < a.len() ==> path_lt(#[trigger] strs(r@)[k], sa[i as int])) && (j < b.len() ==> path_lt(strs(r@)[k], sb[j as int])) by {
                if k < before.len() {
                    assert(nr[k] == before[k]);
                    if i < a.len() {
                        if take_a {
                            lemma_path_lt_transitive(before[k], sa[oi], sa[i as int]);
                        }
                    }
                    if j < b.len() {
                        if !take_a {
                            lemma_path_lt_transitive(before[k], sb[oj], sb[j as int]);
                        }
                    }
                }
            }
            assert forall|p: int, q: int| 0 <= p < q < r.len() implies path_lt(#[trigger] nr[p], #[trigger] nr[q]) by {
                if q < before.len() {
                    assert(nr[p] == before[p] && nr[q] == before[q]);
                } else {
                    assert(nr[p] == before[p]);
                    if take_a {
                        assert(path_lt(before[p], sa[oi]));
                    } else {
                        assert(path_lt(before[p], sb[oj]));
                    }
                }
            }
            if take_a {
                assert(sa.take(i as int) =~= sa.take(oi).push(x));
                assert(sb.take(j as int) == sb.take(oj));
            } else {
                assert(sb.take(j as int) =~= sb.take(oj).push(x));
                assert(sa.take(i as int) == sa.take(oi));
            }
            assert forall|y: Seq<char>| #[trigger] nr.contains(y) <==> (sa.take(i as int).contains(y) || sb.take(j as int).contains(y)) by {
                vstd::seq_lib::lemma_seq_contains_after_push(before, x, y);
                if take_a {
                    vstd::seq_lib::lemma_seq_contains_after_push(sa.take(oi), x, y);
                } else {
                    vstd::seq_lib::lemma_seq_contains_after_push(sb.take(oj), x, y);
                }
            }
        }
    }
    assert(sa.take(a.len() as int) == sa);
    assert(sb.take(b.len() as int) == sb);
    r
}

} // verus!
