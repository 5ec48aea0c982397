//! Installed mod copies: their sources, identity fields, and conflict rules,
//! and the Steam library manifest format that locates subscribed copies.

use vstd::prelude::*;

use crate::paths::{lemma_path_lt_asymmetric, lemma_path_lt_irreflexive, lemma_path_lt_transitive, path_less, path_lt};
use crate::error::{Error, ErrorKind};
use crate::paths::strs;
use crate::templates::push_range;
use crate::text::{
    chars_of, line_spans, lines, push_char, spans, split_once, str_eq, trim, trim_bounds,
};

verus! {

/// A location from which Project Zomboid or its Workshop uploader can read a mod.
#[derive(Debug, Clone, Copy, PartialEq, Eq, Structural)]
pub enum CopySource {
    /// User-local playable mod installation.
    Local,
    /// Project staged for the in-game Workshop uploader.
    Staging,
    /// Steam-managed Workshop subscription.
    Steam,
}

/// The stable structured-output value of a copy source.
pub open spec fn source_name(s: CopySource) -> Seq<char> {
    match s {
        CopySource::Local => "local"@,
        CopySource::Staging => "staging"@,
        CopySource::Steam => "steam"@,
    }
}

/// The human-readable label of a copy source.
pub open spec fn source_label(s: CopySource) -> Seq<char> {
    match s {
        CopySource::Local => "Local installation"@,
        CopySource::Staging => "Workshop staging"@,
        CopySource::Steam => "Steam subscription"@,
    }
}

impl CopySource {
    /// Stable structured-output value.
    pub fn as_str(self) -> (r: &'static str)
        ensures
            r@ == source_name(self),
    {
        match self {
            CopySource::Local => "local",
            CopySource::Staging => "staging",
            CopySource::Steam => "steam",
        }
    }

    /// Human-readable source label.
    pub fn label(self) -> (r: &'static str)
        ensures
            r@ == source_label(self),
    {
        match self {
            CopySource::Local => "Local installation",
            CopySource::Staging => "Workshop staging",
            CopySource::Steam => "Steam subscription",
        }
    }
}

/// One discovered copy matching the current project's mod identifier.
#[derive(Debug)]
pub struct InstalledCopy {
    /// Kind of installation containing the copy.
    pub source: CopySource,
    /// Version declared by the copy, if present.
    pub version: Option<String>,
    /// Root directory of the matching mod.
    pub path: String,
}

/// Whether a copy declares exactly `version`.
pub open spec fn copy_is_current(c: InstalledCopy, version: Seq<char>) -> bool {
    c.version matches Some(v) && v@ == version
}

/// Whether mod resolution can select an unexpected or ambiguous copy:
/// more than one copy, or a copy of another version.
pub open spec fn resolution_conflict(copies: Seq<InstalledCopy>, version: Seq<char>) -> bool {
    copies.len() > 1 || exists|i: int| 0 <= i < copies.len() && !copy_is_current(#[trigger] copies[i], version)
}

impl InstalledCopy {
    /// Whether this copy declares the expected project version.
    pub fn is_current(&self, version: &str) -> (r: bool)
        ensures
            r == copy_is_current(*self, version@),
    {
        match &self.version {
            Some(v) => str_eq(v.as_str(), version),
            None => false,
        }
    }
}

/// Returns whether mod resolution can select an unexpected or ambiguous copy.
pub fn has_resolution_conflict(copies: &Vec<InstalledCopy>, version: &str) -> (r: bool)
    ensures
        r == resolution_conflict(copies@, version@),
{
    if copies.len() > 1 {
        return true;
    }
    let mut i: usize = 0;
    while i < copies.len()
        invariant
            i <= copies.len(),
            forall|j: int| 0 <= j < i ==> copy_is_current(#[trigger] copies@[j], version@),
        decreases copies.len() - i,
    {
        if !copies[i].is_current(version) {
            return true;
        }
        i = i + 1;
    }
    false
}

/// The trimmed value of the first line whose trimmed key is `expected`.
pub open spec fn field_value(ls: Seq<Seq<char>>, expected: Seq<char>) -> Option<Seq<char>>
    decreases ls.len(),
{
    if ls.len() == 0 {
        None
    } else {
        match split_once(ls[0], '=') {
            Some((k, v)) => if trim(k) == expected {
                Some(trim(v))
            } else {
                field_value(ls.drop_first(), expected)
            },
            None => field_value(ls.drop_first(), expected),
        }
    }
}

/// Extracts the first trimmed value of a `mod.info` field.
pub fn field(source: &str, expected: &str) -> (r: Option<String>)
    ensures
        match r {
            Some(s) => field_value(lines(source@), expected@) == Some(s@),
            None => field_value(lines(source@), expected@) is None,
        },
{
    let v = chars_of(source);
    let sp = line_spans(&v);
    let ghost ls = spans(v@, sp@);
    let mut i: usize = 0;
    assert(ls.skip(0) == ls);
    while i < sp.len()
        invariant
            i <= sp.len(),
            ls == spans(v@, sp@),
            ls == lines(source@),
            forall|k: int| 0 <= k < sp.len() ==> #[trigger] sp@[k].0 <= sp@[k].1 <= v.len(),
            field_value(ls, expected@) == field_value(ls.skip(i as int), expected@),
        decreases sp.len() - i,
    {
        let (a, b) = sp[i];
        let ghost l = v@.subrange(a as int, b as int);
        let ghost rest = ls.skip(i as int);
        assert(rest[0] == l);
        assert(rest.drop_first() == ls.skip(i + 1));
        let mut q = a;
        while q < b && v[q] != '='
            invariant
                a <= q <= b <= v.len(),
                forall|j: int| a <= j < q ==> v@[j] != '=',
            decreases b - q,
        {
            q = q + 1;
        }
        proof {
            assert forall|j: int| 0 <= j < q - a implies l[j] != '=' by {
                assert(l[j] == v@[a + j]);
            }
            if q < b {
                assert(l[q - a] == v@[q as int]);
            }
            crate::text::lemma_find_char_at(l, '=', q - a);
            if q < b {
                assert(l.take(q - a) == v@.subrange(a as int, q as int));
                assert(l.skip(q - a + 1) == v@.subrange(q + 1, b as int));
            }
        }
        if q < b {
            let (ka, kb) = trim_bounds(&v, a, q);
            let mut key = String::new();
            push_range(&mut key, &v, ka, kb);
            if str_eq(key.as_str(), expected) {
                let (va, vb) = trim_bounds(&v, q + 1, b);
                let mut value = String::new();
                push_range(&mut value, &v, va, vb);
                return Some(value);
            }
        }
        i = i + 1;
    }
    None
}

/// The scanner state of a quoted-value tokenizer: values found so far, the
/// value being read, whether a quote is open, and whether a backslash escapes
/// the next character.
pub type QuoteState = (Seq<Seq<char>>, Seq<char>, bool, bool);

/// One character of the quoted-value tokenizer.
pub open spec fn quote_step(st: QuoteState, c: char) -> QuoteState {
    let (vals, cur, quoted, escaped) = st;
    if !quoted {
        if c == '"' {
            (vals, seq![], true, escaped)
        } else {
            st
        }
    } else if escaped {
        (vals, cur.push(c), true, false)
    } else if c == '\\' {
        (vals, cur, true, true)
    } else if c == '"' {
        (vals.push(cur), cur, false, false)
    } else {
        (vals, cur.push(c), true, false)
    }
}

/// The tokenizer state after reading `s`.
pub open spec fn quote_scan(s: Seq<char>) -> QuoteState
    decreases s.len(),
{
    if s.len() == 0 {
        (seq![], seq![], false, false)
    } else {
        quote_step(quote_scan(s.drop_last()), s.last())
    }
}

/// The complete quoted values of a VDF line, with backslash escapes resolved.
pub open spec fn quoted_values_of(line: Seq<char>) -> Seq<Seq<char>> {
    quote_scan(line).0
}

/// Parses quoted VDF values and their backslash escapes.
pub fn quoted_values(line: &str) -> (r: Vec<String>)
    ensures
        r@.map_values(|s: String| s@) == quoted_values_of(line@),
{
    let v = chars_of(line);
    let mut values: Vec<String> = Vec::new();
    let mut current = String::new();
    let mut quoted = false;
    let mut escaped = false;
    let mut i: usize = 0;
    while i < v.len()
        invariant
            i <= v.len(),
            v@ == line@,
            quote_scan(v@.take(i as int)) == (values@.map_values(|s: String| s@), current@, quoted, escaped),
        decreases v.len() - i,
    {
        let c = v[i];
        assert(v@.take(i + 1).drop_last() == v@.take(i as int));
        assert(v@.take(i + 1).last() == c);
        let ghost vals = values@.map_values(|s: String| s@);
        if !quoted {
            if c == '"' {
                quoted = true;
                current = String::new();
            }
        } else if escaped {
            push_char(&mut current, c);
            escaped = false;
        } else if c == '\\' {
            escaped = true;
        } else if c == '"' {
            values.push(current.clone());
            assert(values@.map_values(|s: String| s@) == vals.push(current@));
            quoted = false;
        } else {
            push_char(&mut current, c);
        }
        i = i + 1;
    }
    assert(v@.take(v.len() as int) == v@);
    values
}

/// The value after the first `path` value, when one follows it.
pub open spec fn path_after(vals: Seq<Seq<char>>) -> Option<Seq<char>>
    decreases vals.len(),
{
    if vals.len() < 2 {
        None
    } else if vals[0] == "path"@ {
        Some(vals[1])
    } else {
        path_after(vals.drop_first())
    }
}

/// The library paths named by a Steam `libraryfolders.vdf` manifest: for each
/// line, the value after its first `path` value.
pub open spec fn library_paths_of(ls: Seq<Seq<char>>) -> Seq<Seq<char>>
    decreases ls.len(),
{
    if ls.len() == 0 {
        seq![]
    } else {
        let rest = library_paths_of(ls.drop_last());
        match path_after(quoted_values_of(ls.last())) {
            Some(p) => rest.push(p),
            None => rest,
        }
    }
}

/// Extracts `path` values from Valve's line-oriented library manifest.
pub fn vdf_library_paths(source: &str) -> (r: Vec<String>)
    ensures
        r@.map_values(|s: String| s@) == library_paths_of(lines(source@)),
{
    let v = chars_of(source);
    let sp = line_spans(&v);
    let ghost ls = spans(v@, sp@);
    let mut out: Vec<String> = Vec::new();
    let mut i: usize = 0;
    assert(ls.take(0) == Seq::<Seq<char>>::empty());
    while i < sp.len()
        invariant
            i <= sp.len(),
            ls == spans(v@, sp@),
            ls == lines(source@),
            forall|k: int| 0 <= k < sp.len() ==> #[trigger] sp@[k].0 <= sp@[k].1 <= v.len(),
            out@.map_values(|s: String| s@) == library_paths_of(ls.take(i as int)),
        decreases sp.len() - i,
    {
        let (a, b) = sp[i];
        let mut line = String::new();
        push_range(&mut line, &v, a, b);
        assert(ls[i as int] == line@);
        assert(ls.take(i + 1).drop_last() == ls.take(i as int));
        assert(ls.take(i + 1).last() == line@);
        let vals = quoted_values(line.as_str());
        let ghost vv = vals@.map_values(|s: String| s@);
        let ghost before = out@.map_values(|s: String| s@);
        let mut j: usize = 0;
        assert(vv.skip(0) == vv);
        while vals.len() - j > 1 && !str_eq(vals[j].as_str(), "path")
            invariant
                j <= vals.len(),
                vv == vals@.map_values(|s: String| s@),
                path_after(vv) == path_after(vv.skip(j as int)),
            decreases vals.len() - j,
        {
            assert(vv.skip(j as int).drop_first() == vv.skip(j + 1));
            j = j + 1;
        }
        if vals.len() - j > 1 {
            assert(vv.skip(j as int)[0] == vv[j as int] && vv.skip(j as int)[1] == vv[j + 1]);
            out.push(vals[j + 1].clone());
            assert(out@.map_values(|s: String| s@) == before.push(vv[j + 1]));
        }
        i = i + 1;
    }
    assert(ls.take(sp.len() as int) == ls);
    out
}

/// A copy as plain values: source, version, path.
pub type CopyView = (CopySource, Option<Seq<char>>, Seq<char>);

/// The plain values of a copy.
pub open spec fn copy_view(c: InstalledCopy) -> CopyView {
    (
        c.source,
        match c.version {
            Some(v) => Some(v@),
            None => None,
        },
        c.path@,
    )
}

/// The plain values of a list of copies.
pub open spec fn copies_view(cs: Seq<InstalledCopy>) -> Seq<CopyView> {
    cs.map_values(|c: InstalledCopy| copy_view(c))
}

/// The position of a source in listings: by its stable name.
pub open spec fn source_rank(s: CopySource) -> nat {
    match s {
        CopySource::Local => 0,
        CopySource::Staging => 1,
        CopySource::Steam => 2,
    }
}

/// Listing order of copies: by source, then by path.
pub open spec fn copy_lt(a: CopyView, b: CopyView) -> bool {
    source_rank(a.0) < source_rank(b.0) || (source_rank(a.0) == source_rank(b.0) && path_lt(a.2, b.2))
}

/// Whether copies are in listing order.
pub open spec fn copies_sorted(s: Seq<CopyView>) -> bool {
    forall|i: int, j: int| 0 <= i < j < s.len() ==> !copy_lt(#[trigger] s[j], #[trigger] s[i])
}

/// Copies without those that repeat the path of the copy kept before them.
pub open spec fn dedup_paths(s: Seq<CopyView>) -> Seq<CopyView>
    decreases s.len(),
{
    if s.len() == 0 {
        seq![]
    } else {
        let d = dedup_paths(s.drop_last());
        if d.len() > 0 && d.last().2 == s.last().2 {
            d
        } else {
            d.push(s.last())
        }
    }
}

/// Inserts a copy after every listed copy that does not come after it.
pub open spec fn insert_listed(s: Seq<CopyView>, c: CopyView) -> Seq<CopyView>
    decreases s.len(),
{
    if s.len() == 0 {
        seq![c]
    } else if copy_lt(c, s[0]) {
        seq![c] + s
    } else {
        seq![s[0]] + insert_listed(s.drop_first(), c)
    }
}

/// Copies in listing order, copies that compare equal keeping their
/// discovery order: each copy in turn inserted after those not after it.
pub open spec fn listing_order(s: Seq<CopyView>) -> Seq<CopyView>
    decreases s.len(),
{
    if s.len() == 0 {
        seq![]
    } else {
        insert_listed(listing_order(s.drop_last()), s.last())
    }
}

/// Inserting at the first position whose copy comes after `c` is
/// [`insert_listed`].
proof fn lemma_insert_listed_at(s: Seq<CopyView>, c: CopyView, p: int)
    requires
        0 <= p <= s.len(),
        forall|k: int| 0 <= k < p ==> !copy_lt(c, #[trigger] s[k]),
        p == s.len() || copy_lt(c, s[p]),
    ensures
        insert_listed(s, c) == s.insert(p, c),
    decreases p,
{
    if s.len() == 0 {
        assert(s.insert(p, c) =~= seq![c]);
    } else if p == 0 {
        assert(s.insert(0, c) =~= seq![c] + s);
    } else {
        assert(!copy_lt(c, s[0]));
        let t = s.drop_first();
        assert forall|k: int| 0 <= k < p - 1 implies !copy_lt(c, #[trigger] t[k]) by {
            assert(t[k] == s[k + 1]);
        }
        if p - 1 < t.len() {
            assert(t[p - 1] == s[p]);
        }
        lemma_insert_listed_at(t, c, p - 1);
        assert(seq![s[0]] + t.insert(p - 1, c) =~= s.insert(p, c));
    }
}

proof fn lemma_copy_lt_order(a: CopyView, b: CopyView, c: CopyView)
    ensures
        !copy_lt(a, a),
        copy_lt(a, b) ==> !copy_lt(b, a),
        copy_lt(a, b) && copy_lt(b, c) ==> copy_lt(a, c),
{
    lemma_path_lt_irreflexive(a.2);
    if copy_lt(a, b) && source_rank(a.0) == source_rank(b.0) {
        lemma_path_lt_asymmetric(a.2, b.2);
    }
    if copy_lt(a, b) && copy_lt(b, c) && source_rank(a.0) == source_rank(b.0) && source_rank(b.0) == source_rank(c.0) {
        lemma_path_lt_transitive(a.2, b.2, c.2);
    }
}

fn rank(s: CopySource) -> (r: u8)
    ensures
        r as nat == source_rank(s),
{
    match s {
        CopySource::Local => 0,
        CopySource::Staging => 1,
        CopySource::Steam => 2,
    }
}

fn copy_less(a: &InstalledCopy, b: &InstalledCopy) -> (r: bool)
    ensures
        r == copy_lt(copy_view(*a), copy_view(*b)),
{
    let ra = rank(a.source);
    let rb = rank(b.source);
    ra < rb || (ra == rb && path_less(a.path.as_str(), b.path.as_str()))
}

/// Puts discovered copies in listing order (by source, then path, equal
/// copies keeping their discovery order) and drops each copy whose path
/// repeats the copy kept just before it.
pub fn order_copies(copies: Vec<InstalledCopy>) -> (r: Vec<InstalledCopy>)
    ensures
        copies_view(r@) == dedup_paths(listing_order(copies_view(copies@))),
        copies_sorted(listing_order(copies_view(copies@))),
        listing_order(copies_view(copies@)).to_multiset() == copies_view(copies@).to_multiset(),
{
    let ghost input = copies_view(copies@);
    let mut rest = copies;
    let mut sorted: Vec<InstalledCopy> = Vec::new();
    proof {
        broadcast use vstd::seq_lib::group_to_multiset_ensures, vstd::multiset::group_multiset_axioms;
        assert(copies_view(sorted@) =~= Seq::<CopyView>::empty());
        assert(Seq::<CopyView>::empty().to_multiset() == vstd::multiset::Multiset::<CopyView>::empty());
        assert(copies_view(sorted@).to_multiset().add(copies_view(rest@).to_multiset()) =~= input.to_multiset());
    }
    let ghost mut consumed: int = 0;
    assert(input.take(0) =~= Seq::<CopyView>::empty());
    assert(input.skip(0) =~= input);
    while rest.len() > 0
        invariant
            0 <= consumed <= input.len(),
            copies_view(rest@) == input.skip(consumed),
            copies_view(sorted@) == listing_order(input.take(consumed)),
            copies_sorted(copies_view(sorted@)),
            copies_view(sorted@).to_multiset().add(copies_view(rest@).to_multiset()) == input.to_multiset(),
        decreases rest.len(),
    {
        let ghost rv = copies_view(rest@);
        let c = rest.remove(0);
        proof {
            broadcast use vstd::seq_lib::group_to_multiset_ensures, vstd::multiset::group_multiset_axioms;
            assert(copies_view(rest@) =~= rv.remove(0));
            vstd::seq_lib::to_multiset_remove(rv, 0);
        }
        let ghost cv = copy_view(c);
        let mut p: usize = 0;
        while p < sorted.len() && !copy_less(&c, &sorted[p])
            invariant
                p <= sorted.len(),
                cv == copy_view(c),
                forall|k: int| 0 <= k < p ==> !copy_lt(cv, #[trigger] copies_view(sorted@)[k]),
            decreases sorted.len() - p,
        {
            p = p + 1;
        }
        let ghost sv = copies_view(sorted@);
        proof {
            if p < sorted.len() {
                assert(copy_lt(cv, sv[p as int]));
            }
            lemma_insert_listed_at(sv, cv, p as int);
            assert(rv[0] == input[consumed]);
            assert(input.take(consumed + 1).drop_last() =~= input.take(consumed));
            assert(input.take(consumed + 1).last() == input[consumed]);
        }
        sorted.insert(p, c);
        proof {
            broadcast use vstd::seq_lib::group_to_multiset_ensures, vstd::multiset::group_multiset_axioms;
            let nv = copies_view(sorted@);
            assert(nv =~= sv.insert(p as int, cv));
            assert(copies_view(rest@) =~= input.skip(consumed + 1));
            consumed = consumed + 1;
            vstd::seq_lib::to_multiset_insert(sv, p as int, cv);
            assert(rv[0] == cv);
            assert(nv.to_multiset().add(copies_view(rest@).to_multiset()) =~= input.to_multiset());
            assert forall|i: int, j: int| 0 <= i < j < nv.len() implies !copy_lt(#[trigger] nv[j], #[trigger] nv[i]) by {
                if j < p {
                    assert(nv[i] == sv[i] && nv[j] == sv[j]);
                } else if j == p {
                    assert(nv[i] == sv[i]);
                } else if i == p {
                    assert(nv[j] == sv[j - 1]);
                    if p < sv.len() {
                        assert(copy_lt(cv, sv[p as int]));
                        if j - 1 > p {
                            assert(!copy_lt(sv[j - 1], sv[p as int]));
                        }
                        lemma_copy_lt_order(sv[j - 1], cv, sv[p as int]);
                        lemma_copy_lt_order(cv, sv[p as int], sv[p as int]);
                    }
                } else if i < p {
                    assert(nv[i] == sv[i] && nv[j] == sv[j - 1]);
                } else {
                    assert(nv[i] == sv[i - 1] && nv[j] == sv[j - 1]);
                }
            }
        }
    }
    let ghost s = copies_view(sorted@);
    proof {
        broadcast use vstd::seq_lib::group_to_multiset_ensures, vstd::multiset::group_multiset_axioms;
        assert(consumed == input.len());
        assert(input.take(consumed) =~= input);
        assert(copies_view(rest@) =~= Seq::<CopyView>::empty());
        assert(Seq::<CopyView>::empty().to_multiset() == vstd::multiset::Multiset::<CopyView>::empty());
        assert(s.to_multiset() =~= input.to_multiset());
    }
    let mut r: Vec<InstalledCopy> = Vec::new();
    let mut taken = sorted;
    assert(copies_view(r@) =~= dedup_paths(s.take(0)));
    let mut i: usize = 0;
    let n = taken.len();
    assert(s.subrange(0, n as int) == s);
    while taken.len() > 0
        invariant
            n == s.len(),
            i + taken.len() == n,
            copies_view(taken@) == s.subrange(i as int, n as int),
            copies_view(r@) == dedup_paths(s.take(i as int)),
        decreases taken.len(),
    {
        let ghost tv = copies_view(taken@);
        let c = taken.remove(0);
        proof {
            assert(copy_view(c) == tv[0]);
            assert(tv[0] == s[i as int]);
            assert(copies_view(taken@) =~= tv.remove(0));
            assert(tv.remove(0) =~= s.subrange(i + 1, n as int));
            assert(s.take(i + 1).drop_last() == s.take(i as int));
            assert(s.take(i + 1).last() == s[i as int]);
        }
        let keep = match r.last() {
            Some(last) => !crate::text::str_eq(last.path.as_str(), c.path.as_str()),
            None => true,
        };
        let ghost before = copies_view(r@);
        if keep {
            r.push(c);
            assert(copies_view(r@) =~= before.push(copy_view(c)));
        }
        i = i + 1;
    }
    assert(s.take(n as int) == s);
    r
}

/// Whether Workshop staging holds a copy of another version.
pub open spec fn staging_is_stale(copies: Seq<InstalledCopy>, version: Seq<char>) -> bool {
    exists|i: int| 0 <= i < copies.len() && (#[trigger] copies[i]).source == CopySource::Staging && !copy_is_current(copies[i], version)
}

/// Whether Workshop staging holds a copy of another version, so that it
/// should be refreshed.
pub fn has_stale_staging(copies: &Vec<InstalledCopy>, version: &str) -> (r: bool)
    ensures
        r == staging_is_stale(copies@, version@),
{
    let mut i: usize = 0;
    while i < copies.len()
        invariant
            i <= copies.len(),
            forall|j: int| 0 <= j < i ==> !((#[trigger] copies@[j]).source == CopySource::Staging && !copy_is_current(copies@[j], version@)),
        decreases copies.len() - i,
    {
        if copies[i].source == CopySource::Staging && !copies[i].is_current(version) {
            assert(copies@[i as int].source == CopySource::Staging);
            return true;
        }
        i = i + 1;
    }
    false
}

/// The copy that a candidate directory holds, from the text of its build
/// metadata: recorded only when its `id` is the project's.
pub fn matching_copy(source: CopySource, path: &str, metadata: &str, mod_id: &str) -> (r: Option<InstalledCopy>)
    ensures
        field_value(lines(metadata@), "id"@) == Some(mod_id@) ==> (r matches Some(c) && c.source == source && c.path@ == path@
            && match c.version {
                Some(v) => field_value(lines(metadata@), "modversion"@) == Some(v@),
                None => field_value(lines(metadata@), "modversion"@) is None,
            }),
        field_value(lines(metadata@), "id"@) != Some(mod_id@) ==> r is None,
{
    let id = field(metadata, "id");
    let matches = match &id {
        Some(i) => str_eq(i.as_str(), mod_id),
        None => false,
    };
    if !matches {
        return None;
    }
    let version = field(metadata, "modversion");
    Some(InstalledCopy { source, version, path: path.to_owned() })
}

/// A configured Steam location: the Steam root itself, or the root above
/// a `steamapps` directory.
pub open spec fn steam_root_of(root: Seq<char>) -> Seq<char> {
    let name = crate::live::last_segment(root);
    if name == "steamapps"@ && root.len() > name.len() {
        root.take(root.len() - name.len() - 1)
    } else {
        root
    }
}

/// Accepts either a Steam root or its `steamapps` directory.
pub fn normalize_steam_root(root: &str) -> (r: String)
    ensures
        r@ == steam_root_of(root@),
{
    let v = chars_of(root);
    let n = v.len();
    let mut s = n;
    assert(v@.take(n as int) == v@);
    assert(v@.subrange(n as int, n as int) == Seq::<char>::empty());
    while s > 0 && v[s - 1] != '/'
        invariant
            s <= n == v.len(),
            v@ == root@,
            crate::live::last_segment(v@) == crate::live::last_segment(v@.take(s as int)) + v@.subrange(s as int, n as int),
        decreases s,
    {
        assert(v@.take(s as int).drop_last() == v@.take(s - 1));
        assert(v@.subrange(s - 1, n as int) == seq![v@[s - 1]] + v@.subrange(s as int, n as int));
        s = s - 1;
    }
    proof {
        if s > 0 {
            assert(v@.take(s as int).last() == '/');
        }
        assert(crate::live::last_segment(v@.take(s as int)).len() == 0);
        assert(crate::live::last_segment(v@) == v@.subrange(s as int, n as int));
    }
    let name = crate::text::string_from_range(&v, s, n);
    proof { reveal_strlit("steamapps"); }
    if str_eq(name.as_str(), "steamapps") && s > 0 {
        assert(v@.subrange(0, s - 1) == v@.take(n - (n - s) - 1));
        return crate::text::string_from_range(&v, 0, s - 1);
    }
    root.to_owned()
}


/// Whether `path` lies below `root` as `<root>/<project>/Contents/mods/<mod>`:
/// exactly four normal components past the root.
pub open spec fn staging_copy_path(root: Seq<char>, path: Seq<char>) -> bool {
    &&& path.len() > root.len()
    &&& path.take(root.len() as int) == root
    &&& path[root.len() as int] == '/'
    &&& crate::layout::normal_parts(crate::validation::components(path.skip(root.len() as int + 1))).len() == 4
}

fn normal_count(parts: &Vec<String>) -> (r: usize)
    ensures
        r == crate::layout::normal_parts(strs(parts@)).len(),
{
    let mut n: usize = 0;
    let mut i: usize = 0;
    while i < parts.len()
        invariant
            i <= parts.len(),
            n == crate::layout::normal_parts(strs(parts@).take(i as int)).len(),
            n <= i,
        decreases parts.len() - i,
    {
        assert(strs(parts@).take(i + 1).drop_last() == strs(parts@).take(i as int));
        assert(strs(parts@).take(i + 1).last() == parts@[i as int]@);
        proof { reveal_strlit("."); }
        let keep = !(chars_of(parts[i].as_str()).len() == 0 || str_eq(parts[i].as_str(), "."));
        if keep {
            n = n + 1;
        }
        i = i + 1;
    }
    assert(strs(parts@).take(parts.len() as int) == strs(parts@));
    n
}

/// Refuses to remove a staged copy whose path is not a mod directory of a
/// Workshop project directly under the staging root.
pub fn check_staging_removal(root: &str, path: &str) -> (r: Result<(), Error>)
    ensures
        staging_copy_path(root@, path@) ==> r is Ok,
        !staging_copy_path(root@, path@) ==> (r matches Err(e) && e.kind == ErrorKind::Project
            && e.message@ == "unsafe Workshop staging cleanup path: "@ + path@),
{
    let r_chars = chars_of(root);
    let p_chars = chars_of(path);
    let mut ok = p_chars.len() > r_chars.len();
    if ok {
        let mut i: usize = 0;
        while i < r_chars.len()
            invariant
                i <= r_chars.len() < p_chars.len(),
                r_chars@ == root@,
                p_chars@ == path@,
                forall|j: int| 0 <= j < i ==> r_chars@[j] == p_chars@[j],
            ensures
                i <= r_chars.len(),
                forall|j: int| 0 <= j < i ==> r_chars@[j] == p_chars@[j],
                i < r_chars.len() ==> r_chars@[i as int] != p_chars@[i as int],
            decreases r_chars.len() - i,
        {
            if r_chars[i] != p_chars[i] {
                break;
            }
            i = i + 1;
        }
        if i < r_chars.len() {
            assert(p_chars@.take(r_chars.len() as int)[i as int] != r_chars@[i as int]);
            ok = false;
        } else {
            assert(p_chars@.take(r_chars.len() as int) =~= r_chars@);
            ok = p_chars[r_chars.len()] == '/';
        }
    }
    if ok {
        let rest = crate::text::string_from_range(&p_chars, r_chars.len() + 1, p_chars.len());
        assert(rest@ =~= path@.skip(root@.len() as int + 1));
        let parts = crate::layout::split_components(rest.as_str());
        ok = normal_count(&parts) == 4;
    }
    if ok {
        Ok(())
    } else {
        let mut m = String::new();
        crate::text::push_str(&mut m, "unsafe Workshop staging cleanup path: ");
        crate::text::push_str(&mut m, path);
        Err(Error::project(m.as_str()))
    }
}


/// Refuses to remove a staged copy that, with links resolved, lies outside
/// the staging root with links resolved.
pub fn check_staging_canonical(path: &str, canonical_root: &str, canonical_path: &str) -> (r: Result<(), Error>)
    ensures
        crate::layout::resolves_within(canonical_path@, canonical_root@) ==> r is Ok,
        !crate::layout::resolves_within(canonical_path@, canonical_root@) ==> (r matches Err(e) && e.kind == ErrorKind::Project
            && e.message@ == "Workshop staging copy resolves outside its configured root: "@ + path@),
{
    if crate::layout::is_within(canonical_path, canonical_root) {
        Ok(())
    } else {
        let mut m = String::new();
        crate::text::push_str(&mut m, "Workshop staging copy resolves outside its configured root: ");
        crate::text::push_str(&mut m, path);
        Err(Error::project(m.as_str()))
    }
}

/// Where a staged Workshop project holds the mod: `<project>/Contents/mods/<id>`.
pub open spec fn staged_mod_path(project: Seq<char>, mod_id: Seq<char>) -> Seq<char> {
    project + "/Contents/mods/"@ + mod_id
}

/// Whether the copies found hold the current version staged in `project`.
pub open spec fn staging_verified(copies: Seq<InstalledCopy>, project: Seq<char>, mod_id: Seq<char>, version: Seq<char>) -> bool {
    exists|i: int| 0 <= i < copies.len() && {
        let c = #[trigger] copies[i];
        c.source == CopySource::Staging && c.path@ == staged_mod_path(project, mod_id) && copy_is_current(c, version)
    }
}

/// Confirms, from the copies found after staging, that the Workshop project
/// `project` holds the current version of the mod.
pub fn check_staged_copy(copies: &Vec<InstalledCopy>, project: &str, mod_id: &str, version: &str) -> (r: Result<(), Error>)
    ensures
        staging_verified(copies@, project@, mod_id@, version@) ==> r is Ok,
        !staging_verified(copies@, project@, mod_id@, version@) ==> (r matches Err(e) && e.kind == ErrorKind::Project
            && e.message@ == "Workshop staging verification failed after replacement"@),
{
    let mut expected = String::new();
    crate::text::push_str(&mut expected, project);
    crate::text::push_str(&mut expected, "/Contents/mods/");
    crate::text::push_str(&mut expected, mod_id);
    let mut i: usize = 0;
    while i < copies.len()
        invariant
            i <= copies.len(),
            expected@ == staged_mod_path(project@, mod_id@),
            forall|j: int| 0 <= j < i ==> !({
                let c = #[trigger] copies@[j];
                c.source == CopySource::Staging && c.path@ == staged_mod_path(project@, mod_id@) && copy_is_current(c, version@)
            }),
        decreases copies.len() - i,
    {
        if copies[i].source == CopySource::Staging && str_eq(copies[i].path.as_str(), expected.as_str())
            && copies[i].is_current(version) {
            assert(copies@[i as int] == copies[i as int]);
            return Ok(());
        }
        i = i + 1;
    }
    Err(Error::project("Workshop staging verification failed after replacement"))
}

} // verus!
