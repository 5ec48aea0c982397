//! Project paths derived from a manifest: normalized, relative, and kept
//! apart from one another.
//!
//! Paths are `/`-separated. Whether a resolved path stays inside the project
//! once links are followed is for the caller to check on the filesystem.

use vstd::prelude::*;

use crate::config::Project;
use crate::error::Error;
use crate::paths::strs;
use crate::text::{chars_of, push_char, push_str, str_eq};
use crate::validation::components;

verus! {

/// The normal components of a path: its `/`-separated segments without
/// empty ones and `.`.
pub open spec fn normal_parts(segs: Seq<Seq<char>>) -> Seq<Seq<char>>
    decreases segs.len(),
{
    if segs.len() == 0 {
        seq![]
    } else {
        let rest = normal_parts(segs.drop_last());
        if segs.last().len() == 0 || segs.last() == "."@ {
            rest
        } else {
            rest.push(segs.last())
        }
    }
}

/// The normal components of a configured relative path, or why it is
/// refused: it is absolute or climbs with `..`, or it is empty where the
/// project root is not allowed.
pub open spec fn relative_outcome(p: Seq<char>, name: Seq<char>, allow_root: bool) -> Result<Seq<Seq<char>>, Seq<char>> {
    if (p.len() > 0 && p[0] == '/') || components(p).contains(".."@) {
        Err(name + " must be a relative path without parent traversal"@)
    } else if normal_parts(components(p)).len() == 0 && !allow_root {
        Err(name + " must not be empty"@)
    } else {
        Ok(normal_parts(components(p)))
    }
}

/// Whether path `a` starts with path `b`, component by component.
pub open spec fn starts_with_parts(a: Seq<Seq<char>>, b: Seq<Seq<char>>) -> bool {
    b.len() <= a.len() && a.take(b.len() as int) == b
}

/// A path joined to a root.
pub open spec fn joined(root: Seq<char>, parts: Seq<Seq<char>>) -> Seq<char>
    decreases parts.len(),
{
    if parts.len() == 0 {
        root
    } else {
        joined(root, parts.drop_last()) + "/"@ + parts.last()
    }
}

/// Why the source, public and output directories cannot be used together.
pub open spec fn layout_problem(root: Seq<char>, s: Seq<Seq<char>>, p: Seq<Seq<char>>, o: Seq<Seq<char>>) -> Option<Seq<char>> {
    if s.len() > 0 && (s == p || starts_with_parts(s, p) || starts_with_parts(p, s)) {
        Some("paths.source and paths.public must not overlap"@)
    } else if o.len() == 0 || (s.len() > 0 && starts_with_parts(o, s)) || starts_with_parts(o, p) || starts_with_parts(s, o)
        || starts_with_parts(p, o) {
        Some("unsafe output directory: "@ + joined(root, o))
    } else {
        None
    }
}

/// Splits a path at each `/`.
pub fn split_components(path: &str) -> (r: Vec<String>)
    ensures
        strs(r@) == components(path@),
{
    let v = chars_of(path);
    let mut out: Vec<String> = Vec::new();
    let mut cur = String::new();
    let mut i: usize = 0;
    assert(components(v@.take(0)) =~= seq![seq![]]);
    while i < v.len()
        invariant
            i <= v.len(),
            v@ == path@,
            strs(out@).push(cur@) == components(v@.take(i as int)),
        decreases v.len() - i,
    {
        proof {
            assert(v@.take(i + 1).drop_last() == v@.take(i as int));
            assert(v@.take(i + 1).last() == v@[i as int]);
        }
        let ghost before = strs(out@);
        if v[i] == '/' {
            let done = cur;
            out.push(done);
            cur = String::new();
            assert(strs(out@) == before.push(done@));
            assert(strs(out@).push(cur@) =~= before.push(done@).push(seq![]));
        } else {
            let ghost old_cur = cur@;
            push_char(&mut cur, v[i]);
            assert(strs(out@).push(cur@) =~= before.push(old_cur).update(before.len() as int, old_cur.push(v@[i as int])));
        }
        i = i + 1;
    }
    assert(v@.take(v.len() as int) == v@);
    let ghost before = strs(out@);
    out.push(cur);
    assert(strs(out@) == before.push(cur@));
    out
}

/// Normalizes a configured relative path without consulting the
/// filesystem; `name` is the setting it comes from.
pub fn relative(path: &str, name: &str, allow_project_root: bool) -> (r: Result<Vec<String>, Error>)
    ensures
        match relative_outcome(path@, name@, allow_project_root) {
            Ok(parts) => r matches Ok(v) && strs(v@) == parts,
            Err(m) => r matches Err(e) && e.kind == crate::error::ErrorKind::Project && e.message@ == m,
        },
{
    let segs = split_components(path);
    let v = chars_of(path);
    let mut parent = false;
    let mut i: usize = 0;
    proof { reveal_strlit(".."); reveal_strlit("."); }
    while i < segs.len()
        invariant
            i <= segs.len(),
            parent == strs(segs@).take(i as int).contains(".."@),
        decreases segs.len() - i,
    {
        let up = str_eq(segs[i].as_str(), "..");
        proof {
            let t = strs(segs@).take(i as int);
            assert(strs(segs@).take(i + 1) == t.push(segs@[i as int]@));
            vstd::seq_lib::lemma_seq_contains_after_push(t, segs@[i as int]@, ".."@);
        }
        parent = parent || up;
        i = i + 1;
    }
    assert(strs(segs@).take(segs.len() as int) == strs(segs@));
    if (v.len() > 0 && v[0] == '/') || parent {
        let mut m = String::new();
        push_str(&mut m, name);
        push_str(&mut m, " must be a relative path without parent traversal");
        return Err(Error::project(m.as_str()));
    }
    let mut parts: Vec<String> = Vec::new();
    let mut k: usize = 0;
    let ghost ss = strs(segs@);
    let mut segs = segs;
    while k < segs.len()
        invariant
            k <= segs.len(),
            ss == strs(segs@),
            strs(parts@) == normal_parts(ss.take(k as int)),
        decreases segs.len() - k,
    {
        proof {
            assert(ss.take(k + 1).drop_last() == ss.take(k as int));
            assert(ss.take(k + 1).last() == segs@[k as int]@);
        }
        let skip = chars_of(segs[k].as_str()).len() == 0 || str_eq(segs[k].as_str(), ".");
        if !skip {
            let ghost before = strs(parts@);
            parts.push(segs[k].clone());
            assert(strs(parts@) == before.push(segs@[k as int]@));
        }
        k = k + 1;
    }
    assert(ss.take(segs.len() as int) == ss);
    if parts.len() == 0 && !allow_project_root {
        let mut m = String::new();
        push_str(&mut m, name);
        push_str(&mut m, " must not be empty");
        return Err(Error::project(m.as_str()));
    }
    Ok(parts)
}

fn same_parts(a: &Vec<String>, b: &Vec<String>) -> (r: bool)
    ensures
        r == (strs(a@) == strs(b@)),
{
    if a.len() != b.len() {
        assert(strs(a@).len() != strs(b@).len());
        return false;
    }
    assert(strs(a@).take(a.len() as int) == strs(a@));
    starts_with(a, b)
}

/// Whether path `a` starts with path `b`, component by component.
pub(crate) fn starts_with(a: &Vec<String>, b: &Vec<String>) -> (r: bool)
    ensures
        r == starts_with_parts(strs(a@), strs(b@)),
        r && a.len() == b.len() ==> strs(a@) == strs(b@),
{
    if b.len() > a.len() {
        return false;
    }
    let mut i: usize = 0;
    while i < b.len()
        invariant
            i <= b.len() <= a.len(),
            forall|j: int| 0 <= j < i ==> strs(a@)[j] == strs(b@)[j],
        decreases b.len() - i,
    {
        if !str_eq(a[i].as_str(), b[i].as_str()) {
            assert(strs(a@).take(b.len() as int)[i as int] != strs(b@)[i as int]);
            return false;
        }
        i = i + 1;
    }
    assert(strs(a@).take(b.len() as int) =~= strs(b@));
    proof {
        if a.len() == b.len() {
            assert(strs(a@).take(b.len() as int) == strs(a@));
        }
    }
    true
}

/// A path joined to a root.
pub fn join_parts(root: &str, parts: &Vec<String>) -> (r: String)
    ensures
        r@ == joined(root@, strs(parts@)),
{
    let mut r = String::new();
    push_str(&mut r, root);
    let mut i: usize = 0;
    while i < parts.len()
        invariant
            i <= parts.len(),
            r@ == joined(root@, strs(parts@).take(i as int)),
        decreases parts.len() - i,
    {
        assert(strs(parts@).take(i + 1).drop_last() == strs(parts@).take(i as int));
        push_str(&mut r, "/");
        push_str(&mut r, parts[i].as_str());
        i = i + 1;
    }
    assert(strs(parts@).take(parts.len() as int) == strs(parts@));
    r
}

/// Project paths proven to stay apart within the project root.
#[derive(Debug)]
pub struct ProjectLayout {
    /// Project root.
    root: String,
    /// Normal components of the source directory (empty: the root).
    source: Vec<String>,
    /// Normal components of the public-assets directory.
    public: Vec<String>,
    /// Normal components of the generated-output directory.
    output: Vec<String>,
}

/// The first packaged path, in configured order, that is refused, and why.
pub open spec fn include_error(included: Seq<Seq<char>>) -> Option<Seq<char>>
    decreases included.len(),
{
    if included.len() == 0 {
        None
    } else {
        match include_error(included.drop_last()) {
            Some(m) => Some(m),
            None => match relative_outcome(included.last(), "release.include"@, false) {
                Err(m) => Some(m),
                Ok(_) => None,
            },
        }
    }
}

/// Why a manifest's paths cannot be laid out, checked in order: the
/// source, public and output settings, how they overlap, then each packaged
/// path.
pub open spec fn layout_error(
    root: Seq<char>,
    source: Seq<char>,
    public: Seq<char>,
    output: Seq<char>,
    included: Seq<Seq<char>>,
) -> Option<Seq<char>> {
    match relative_outcome(source, "paths.source"@, true) {
        Err(m) => Some(m),
        Ok(s) => match relative_outcome(public, "paths.public"@, false) {
            Err(m) => Some(m),
            Ok(p) => match relative_outcome(output, "paths.output"@, false) {
                Err(m) => Some(m),
                Ok(o) => match layout_problem(root, s, p, o) {
                    Some(m) => Some(m),
                    None => include_error(included),
                },
            },
        },
    }
}

/// Once some packaged path of a prefix is refused, that refusal is the
/// first of the whole list.
proof fn lemma_include_error_prefix(included: Seq<Seq<char>>, i: int)
    requires
        0 <= i <= included.len(),
        include_error(included.take(i)) is Some,
    ensures
        include_error(included) == include_error(included.take(i)),
    decreases included.len() - i,
{
    if i < included.len() {
        assert(included.take(i + 1).drop_last() == included.take(i));
        lemma_include_error_prefix(included, i + 1);
    } else {
        assert(included.take(i) == included);
    }
}

impl ProjectLayout {
    /// The project root.
    pub closed spec fn root_path(&self) -> Seq<char> {
        self.root@
    }

    /// The normal components of the source directory (empty: the root).
    pub closed spec fn source_parts(&self) -> Seq<Seq<char>> {
        strs(self.source@)
    }

    /// The normal components of the public-assets directory.
    pub closed spec fn public_parts(&self) -> Seq<Seq<char>> {
        strs(self.public@)
    }

    /// The normal components of the generated-output directory.
    pub closed spec fn output_parts(&self) -> Seq<Seq<char>> {
        strs(self.output@)
    }

    /// Validates the configured source, public, output and packaged paths.
    pub fn new(project: &Project) -> (r: Result<ProjectLayout, Error>)
        ensures
            r matches Ok(l) ==> {
                &&& l.root_path() == project.root@
                &&& relative_outcome(project.config.paths.source@, "paths.source"@, true) == Ok::<Seq<Seq<char>>, Seq<char>>(l.source_parts())
                &&& relative_outcome(project.config.paths.public@, "paths.public"@, false) == Ok::<Seq<Seq<char>>, Seq<char>>(l.public_parts())
                &&& relative_outcome(project.config.paths.output@, "paths.output"@, false) == Ok::<Seq<Seq<char>>, Seq<char>>(l.output_parts())
                &&& layout_problem(project.root@, l.source_parts(), l.public_parts(), l.output_parts()) is None
                &&& forall|i: int| 0 <= i < project.config.package.included@.len() ==>
                    (#[trigger] relative_outcome(project.config.package.included@[i]@, "release.include"@, false)) is Ok
            },
            r is Err <==> layout_error(
                project.root@,
                project.config.paths.source@,
                project.config.paths.public@,
                project.config.paths.output@,
                strs(project.config.package.included@),
            ) is Some,
            r matches Err(e) ==> e.kind == crate::error::ErrorKind::Project && Some(e.message@) == layout_error(
                project.root@,
                project.config.paths.source@,
                project.config.paths.public@,
                project.config.paths.output@,
                strs(project.config.package.included@),
            ),
    {
        proof {
            reveal_strlit("paths.source");
            reveal_strlit("paths.public");
            reveal_strlit("paths.output");
            reveal_strlit("release.include");
        }
        let source = match relative(project.config.paths.source.as_str(), "paths.source", true) {
            Ok(v) => v,
            Err(e) => return Err(e),
        };
        let public = match relative(project.config.paths.public.as_str(), "paths.public", false) {
            Ok(v) => v,
            Err(e) => return Err(e),
        };
        let output = match relative(project.config.paths.output.as_str(), "paths.output", false) {
            Ok(v) => v,
            Err(e) => return Err(e),
        };
        if source.len() > 0 && (same_parts(&source, &public) || starts_with(&source, &public) || starts_with(&public, &source)) {
            return Err(Error::project("paths.source and paths.public must not overlap"));
        }
        if output.len() == 0 || (source.len() > 0 && starts_with(&output, &source)) || starts_with(&output, &public)
            || starts_with(&source, &output) || starts_with(&public, &output) {
            let mut m = String::new();
            push_str(&mut m, "unsafe output directory: ");
            let shown = join_parts(project.root.as_str(), &output);
            push_str(&mut m, shown.as_str());
            return Err(Error::project(m.as_str()));
        }
        let ghost inc = strs(project.config.package.included@);
        assert(layout_problem(project.root@, strs(source@), strs(public@), strs(output@)) is None);
        let mut i: usize = 0;
        assert(inc.take(0) =~= Seq::<Seq<char>>::empty());
        while i < project.config.package.included.len()
            invariant
                i <= project.config.package.included@.len(),
                inc == strs(project.config.package.included@),
                include_error(inc.take(i as int)) is None,
                layout_error(
                    project.root@,
                    project.config.paths.source@,
                    project.config.paths.public@,
                    project.config.paths.output@,
                    inc,
                ) == include_error(inc),
                forall|j: int| 0 <= j < i ==>
                    (#[trigger] relative_outcome(project.config.package.included@[j]@, "release.include"@, false)) is Ok,
            decreases project.config.package.included@.len() - i,
        {
            proof {
                assert(inc.take(i + 1).drop_last() == inc.take(i as int));
                assert(inc.take(i + 1).last() == project.config.package.included@[i as int]@);
            }
            let checked = relative(project.config.package.included[i].as_str(), "release.include", false);
            match checked {
                Err(e) => {
                    proof {
                        lemma_include_error_prefix(inc, i + 1);
                    }
                    return Err(e);
                },
                Ok(_) => {},
            }
            i = i + 1;
        }
        assert(inc.take(i as int) == inc);
        Ok(ProjectLayout { root: project.root.clone(), source, public, output })
    }

    /// The source root.
    pub fn source_root(&self) -> (r: String)
        ensures
            r@ == joined(self.root_path(), self.source_parts()),
    {
        join_parts(self.root.as_str(), &self.source)
    }

    /// The public-assets root.
    pub fn public_root(&self) -> (r: String)
        ensures
            r@ == joined(self.root_path(), self.public_parts()),
    {
        join_parts(self.root.as_str(), &self.public)
    }

    /// The generated-output root.
    pub fn output_root(&self) -> (r: String)
        ensures
            r@ == joined(self.root_path(), self.output_parts()),
    {
        join_parts(self.root.as_str(), &self.output)
    }

    /// Resolves a packaged file: its normal relative path and its path in
    /// the project.
    pub fn included(&self, configured: &str) -> (r: Result<(String, String), Error>)
        ensures
            match relative_outcome(configured@, "release.include"@, false) {
                Ok(parts) => r matches Ok(p) && p.1@ == joined(self.root_path(), parts)
                    && p.0@ == crate::layout::joined_relative(parts),
                Err(m) => r matches Err(e) && e.kind == crate::error::ErrorKind::Project && e.message@ == m,
            },
    {
        proof { reveal_strlit("release.include"); }
        let parts = relative(configured, "release.include", false)?;
        let rel = join_relative(&parts);
        let source = join_parts(self.root.as_str(), &parts);
        Ok((rel, source))
    }
}

/// A relative path from its components.
pub open spec fn joined_relative(parts: Seq<Seq<char>>) -> Seq<char>
    decreases parts.len(),
{
    if parts.len() == 0 {
        seq![]
    } else if parts.len() == 1 {
        parts[0]
    } else {
        joined_relative(parts.drop_last()) + "/"@ + parts.last()
    }
}

/// A relative path from its components.
pub fn join_relative(parts: &Vec<String>) -> (r: String)
    ensures
        r@ == joined_relative(strs(parts@)),
{
    let mut r = String::new();
    let mut i: usize = 0;
    while i < parts.len()
        invariant
            i <= parts.len(),
            r@ == joined_relative(strs(parts@).take(i as int)),
        decreases parts.len() - i,
    {
        assert(strs(parts@).take(i + 1).drop_last() == strs(parts@).take(i as int));
        if i > 0 {
            push_str(&mut r, "/");
        } else {
            assert(strs(parts@).take(1).len() == 1);
        }
        push_str(&mut r, parts[i].as_str());
        i = i + 1;
    }
    assert(strs(parts@).take(parts.len() as int) == strs(parts@));
    r
}


/// A plain path component: not empty, no separator, neither `.` nor `..`.
pub open spec fn plain_name(s: Seq<char>) -> bool {
    s.len() > 0 && !s.contains('/') && s != "."@ && s != ".."@
}

proof fn lemma_components_have_no_separator(p: Seq<char>)
    ensures
        forall|i: int| 0 <= i < components(p).len() ==> !(#[trigger] components(p)[i]).contains('/'),
    decreases p.len(),
{
    if p.len() > 0 {
        let rest = components(p.drop_last());
        lemma_components_have_no_separator(p.drop_last());
        crate::validation::lemma_components_nonempty(p.drop_last());
        if p.last() != '/' {
            let last = rest.last();
            assert(last == rest[rest.len() - 1]);
            assert forall|i: int| 0 <= i < components(p).len() implies !(#[trigger] components(p)[i]).contains('/') by {
                if i == rest.len() - 1 {
                    let x = last.push(p.last());
                    assert(components(p)[i] == x);
                    if x.contains('/') {
                        let k = choose|k: int| 0 <= k < x.len() && x[k] == '/';
                        if k < last.len() {
                            assert(last[k] == '/');
                        }
                    }
                } else {
                    assert(components(p)[i] == rest[i]);
                }
            }
        } else {
            assert forall|i: int| 0 <= i < components(p).len() implies !(#[trigger] components(p)[i]).contains('/') by {
                if i < rest.len() {
                    assert(components(p)[i] == rest[i]);
                } else {
                    assert(components(p)[i] == Seq::<char>::empty());
                }
            }
        }
    }
}

proof fn lemma_normal_parts_from(segs: Seq<Seq<char>>)
    ensures
        forall|i: int| 0 <= i < normal_parts(segs).len() ==> {
            let x = #[trigger] normal_parts(segs)[i];
            segs.contains(x) && x.len() > 0 && x != "."@
        },
    decreases segs.len(),
{
    if segs.len() > 0 {
        let rest = normal_parts(segs.drop_last());
        lemma_normal_parts_from(segs.drop_last());
        assert forall|i: int| 0 <= i < normal_parts(segs).len() implies {
            let x = #[trigger] normal_parts(segs)[i];
            segs.contains(x) && x.len() > 0 && x != "."@
        } by {
            let x = normal_parts(segs)[i];
            if i < rest.len() {
                assert(x == rest[i]);
                let j = choose|j: int| 0 <= j < segs.drop_last().len() && segs.drop_last()[j] == x;
                assert(segs[j] == x);
            } else {
                assert(x == segs.last());
                assert(segs[segs.len() - 1] == x);
            }
        }
    }
}

/// A configured path that is accepted never leaves the project: each of its
/// components is a plain name, so joined to the root it stays below it.
pub proof fn lemma_relative_parts_are_plain(p: Seq<char>, name: Seq<char>, allow_root: bool)
    requires
        relative_outcome(p, name, allow_root) is Ok,
    ensures
        forall|i: int| 0 <= i < relative_outcome(p, name, allow_root)->Ok_0.len() ==>
            plain_name(#[trigger] relative_outcome(p, name, allow_root)->Ok_0[i]),
{
    let segs = components(p);
    let parts = normal_parts(segs);
    lemma_components_have_no_separator(p);
    lemma_normal_parts_from(segs);
    assert forall|i: int| 0 <= i < parts.len() implies plain_name(#[trigger] parts[i]) by {
        let x = parts[i];
        let j = choose|j: int| 0 <= j < segs.len() && segs[j] == x;
        assert(!segs[j].contains('/'));
        if x == ".."@ {
            assert(segs.contains(".."@));
        }
    }
}


/// The normal components of a path (empty components and `.` dropped).
pub open spec fn path_parts(p: Seq<char>) -> Seq<Seq<char>> {
    normal_parts(components(p))
}

/// Whether a path starts at the filesystem root.
pub open spec fn is_absolute(p: Seq<char>) -> bool {
    p.len() > 0 && p[0] == '/'
}

/// Whether `path` lies at or below `root`, component by component, both
/// being absolute or both relative.
pub open spec fn resolves_within(path: Seq<char>, root: Seq<char>) -> bool {
    is_absolute(path) == is_absolute(root) && starts_with_parts(path_parts(path), path_parts(root))
}

/// Whether `path` names an entry directly inside the directory `root`.
pub open spec fn directly_inside(path: Seq<char>, root: Seq<char>) -> bool {
    resolves_within(path, root) && path_parts(path).len() == path_parts(root).len() + 1
}

/// The normal components of a path.
pub fn normal_components(path: &str) -> (r: Vec<String>)
    ensures
        strs(r@) == path_parts(path@),
{
    let segs = split_components(path);
    let mut parts: Vec<String> = Vec::new();
    let mut k: usize = 0;
    let ghost ss = strs(segs@);
    proof { reveal_strlit("."); }
    while k < segs.len()
        invariant
            k <= segs.len(),
            ss == strs(segs@),
            ss == components(path@),
            strs(parts@) == normal_parts(ss.take(k as int)),
        decreases segs.len() - k,
    {
        proof {
            assert(ss.take(k + 1).drop_last() == ss.take(k as int));
            assert(ss.take(k + 1).last() == segs@[k as int]@);
        }
        let skip = chars_of(segs[k].as_str()).len() == 0 || str_eq(segs[k].as_str(), ".");
        if !skip {
            let ghost before = strs(parts@);
            parts.push(segs[k].clone());
            assert(strs(parts@) == before.push(segs@[k as int]@));
        }
        k = k + 1;
    }
    assert(ss.take(segs.len() as int) == ss);
    parts
}

fn absolute_path(p: &str) -> (r: bool)
    ensures
        r == is_absolute(p@),
{
    let v = chars_of(p);
    v.len() > 0 && v[0] == '/'
}

/// Whether `path` lies at or below `root`.
pub fn is_within(path: &str, root: &str) -> (r: bool)
    ensures
        r == resolves_within(path@, root@),
{
    let a = normal_components(path);
    let b = normal_components(root);
    absolute_path(path) == absolute_path(root) && starts_with(&a, &b)
}

/// Whether `path` names an entry directly inside `root`.
pub fn is_directly_inside(path: &str, root: &str) -> (r: bool)
    ensures
        r == directly_inside(path@, root@),
{
    let a = normal_components(path);
    let b = normal_components(root);
    absolute_path(path) == absolute_path(root) && starts_with(&a, &b) && a.len() > b.len() && a.len() - b.len() == 1
}

/// Why a configured project path is refused once links are resolved: no
/// ancestor of it exists, or its deepest existing ancestor resolves outside
/// the project root.
pub open spec fn confinement_error(
    name: Seq<char>,
    path: Seq<char>,
    canonical_root: Seq<char>,
    canonical_existing: Option<Seq<char>>,
) -> Option<Seq<char>> {
    match canonical_existing {
        None => Some(name + " cannot be resolved within the project"@),
        Some(e) => if resolves_within(e, canonical_root) {
            None
        } else {
            Some(name + " resolves outside the project: "@ + path)
        },
    }
}

/// Refuses a configured path (`name`, joined to the project as `path`)
/// whose deepest existing ancestor, with links resolved, is not inside the
/// project root with links resolved.
pub fn check_confined(name: &str, path: &str, canonical_root: &str, canonical_existing: Option<&str>) -> (r: Result<(), Error>)
    ensures
        match confinement_error(
            name@,
            path@,
            canonical_root@,
            match canonical_existing {
                Some(e) => Some(e@),
                None => None,
            },
        ) {
            None => r is Ok,
            Some(m) => r matches Err(e) && e.kind == crate::error::ErrorKind::Project && e.message@ == m,
        },
{
    match canonical_existing {
        None => {
            let mut m = String::new();
            push_str(&mut m, name);
            push_str(&mut m, " cannot be resolved within the project");
            Err(Error::project(m.as_str()))
        },
        Some(e) => {
            if is_within(e, canonical_root) {
                Ok(())
            } else {
                let mut m = String::new();
                push_str(&mut m, name);
                push_str(&mut m, " resolves outside the project: ");
                push_str(&mut m, path);
                Err(Error::project(m.as_str()))
            }
        },
    }
}

} // verus!
