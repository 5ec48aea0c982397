//! Artifacts: where they go, what is copied into them, and the Lua
//! minifier's arguments and outcomes.
//!
//! The caller copies files, runs processes and replaces directories; these
//! functions decide the paths, the copy plan and the reports.

use vstd::prelude::*;

use crate::error::Error;
use crate::live::extension_of;
use crate::paths::strs;
use crate::process::{failure_text, output_lines, status_text, ProcessOutput};
use crate::text::{chars_of, find_seq, push_str, string_from_range};

verus! {

/// Artifact policy selected for a build.
#[derive(Debug, Clone, Copy, PartialEq, Eq, Structural)]
pub enum BuildProfile {
    /// Local development artifact with standard validation.
    Development,
    /// Publishing artifact with release-input validation.
    Release,
}

/// The directory name of a profile.
pub open spec fn profile_name(p: BuildProfile) -> Seq<char> {
    match p {
        BuildProfile::Development => "dev"@,
        BuildProfile::Release => "release"@,
    }
}

impl BuildProfile {
    /// Returns the directory name used for this profile.
    pub fn name(self) -> (r: &'static str)
        ensures
            r@ == profile_name(self),
    {
        match self {
            BuildProfile::Development => "dev",
            BuildProfile::Release => "release",
        }
    }
}

/// Completed artifact and its identity.
#[derive(Debug)]
pub struct BuildArtifact {
    /// Root directory of the generated artifact.
    pub path: String,
    /// Project Zomboid mod identifier.
    pub mod_id: String,
    /// Policy used to build the artifact.
    pub profile: BuildProfile,
    /// Non-fatal cleanup warnings produced during replacement.
    pub warnings: Vec<String>,
}

/// A build artifact proven to use the release profile.
#[derive(Debug)]
pub struct ReleaseArtifact(BuildArtifact);

impl ReleaseArtifact {
    /// The underlying artifact.
    pub closed spec fn inner(&self) -> BuildArtifact {
        self.0
    }

    /// Accepts only an artifact built with the release profile.
    pub fn from_artifact(artifact: BuildArtifact) -> (r: Result<ReleaseArtifact, Error>)
        ensures
            artifact.profile == BuildProfile::Release ==> (r matches Ok(x) && x.inner() == artifact),
            artifact.profile != BuildProfile::Release ==> (r matches Err(e) && e.kind == crate::error::ErrorKind::Project
                && e.message@ == "Steam Workshop packaging requires a release artifact"@),
    {
        if artifact.profile != BuildProfile::Release {
            return Err(Error::project("Steam Workshop packaging requires a release artifact"));
        }
        Ok(ReleaseArtifact(artifact))
    }

    /// Returns the underlying release build artifact.
    pub fn artifact(&self) -> (r: &BuildArtifact)
        ensures
            *r == self.inner(),
    {
        &self.0
    }
}

/// Result of removing a project's generated output tree.
#[derive(Debug)]
pub struct CleanResult {
    /// Configured output path inspected by the clean operation.
    pub path: String,
    /// Whether an existing output tree was removed.
    pub removed: bool,
}

/// Result of installing an artifact locally.
#[derive(Debug)]
pub struct InstallResult {
    /// Final local mod installation directory.
    pub path: String,
    /// Non-fatal cleanup warnings produced during replacement.
    pub warnings: Vec<String>,
}

/// Where an artifact of a profile is built: `output/<profile>/<id>`.
pub fn artifact_destination(output_root: &str, profile: BuildProfile, mod_id: &str) -> (r: String)
    ensures
        r@ == output_root@ + "/"@ + profile_name(profile) + "/"@ + mod_id@,
{
    let mut s = String::new();
    push_str(&mut s, output_root);
    push_str(&mut s, "/");
    push_str(&mut s, profile.name());
    push_str(&mut s, "/");
    push_str(&mut s, mod_id);
    s
}

/// The directory of a mod's Workshop package under the output root.
pub fn workshop_package_path(output_root: &str, mod_id: &str) -> (r: String)
    ensures
        r@ == output_root@ + "/workshop/"@ + mod_id@,
{
    let mut s = String::new();
    push_str(&mut s, output_root);
    push_str(&mut s, "/workshop/");
    push_str(&mut s, mod_id);
    s
}

/// Where a Workshop package's parts go inside its staging directory: the
/// mod's own root, the upload's preview, and its metadata.
pub fn package_layout(staging: &str, mod_id: &str) -> (r: (String, String, String))
    ensures
        r.0@ == staging@ + "/Contents/mods/"@ + mod_id@,
        r.1@ == staging@ + "/preview.png"@,
        r.2@ == staging@ + "/workshop.txt"@,
{
    let mut root = String::new();
    push_str(&mut root, staging);
    push_str(&mut root, "/Contents/mods/");
    push_str(&mut root, mod_id);
    let mut preview = String::new();
    push_str(&mut preview, staging);
    push_str(&mut preview, "/preview.png");
    let mut workshop = String::new();
    push_str(&mut workshop, staging);
    push_str(&mut workshop, "/workshop.txt");
    (root, preview, workshop)
}

/// Whether a name joined to a directory stays its direct child: it is not
/// empty, holds no separator, and is not `.`.
pub open spec fn direct_child(name: Seq<char>) -> bool {
    name.len() > 0 && !name.contains('/') && name != "."@
}

/// Whether a name joined to a directory stays its direct child.
pub fn is_direct_child(name: &str) -> (r: bool)
    ensures
        r == direct_child(name@),
{
    let v = chars_of(name);
    if v.len() == 0 {
        return false;
    }
    let mut i: usize = 0;
    while i < v.len()
        invariant
            i <= v.len(),
            v@ == name@,
            forall|j: int| 0 <= j < i ==> v@[j] != '/',
        decreases v.len() - i,
    {
        if v[i] == '/' {
            assert(v@[i as int] == '/');
            return false;
        }
        i = i + 1;
    }
    proof { reveal_strlit("."); }
    let dot = v.len() == 1 && v[0] == '.';
    if dot {
        assert(name@ =~= "."@);
    }
    !dot
}

/// Whether a file is repository or operating-system clutter that does not
/// belong in an artifact: `.gitkeep`, `.DS_Store`, `Thumbs.db` (in any
/// ASCII case) or a `.tmp` file.
pub open spec fn junk_path(p: Seq<char>) -> bool {
    ||| (crate::live::file_name_of(p) matches Some(n) && (crate::live::eq_ignore_ascii_case(n, ".gitkeep"@)
        || crate::live::eq_ignore_ascii_case(n, ".DS_Store"@) || crate::live::eq_ignore_ascii_case(n, "Thumbs.db"@)))
    ||| crate::live::path_has_extension(p, "tmp"@)
}

fn same_ignoring_case(a: &Vec<char>, b: &str) -> (r: bool)
    ensures
        r == crate::live::eq_ignore_ascii_case(a@, b@),
{
    let w = chars_of(b);
    if a.len() != w.len() {
        return false;
    }
    let mut i: usize = 0;
    while i < a.len()
        invariant
            i <= a.len() == w.len(),
            w@ == b@,
            forall|j: int| 0 <= j < i ==> crate::live::ascii_lower(#[trigger] a@[j]) == crate::live::ascii_lower(w@[j]),
        decreases a.len() - i,
    {
        let x = if 'A' <= a[i] && a[i] <= 'Z' { (((a[i] as u32) + 32) as u8) as char } else { a[i] };
        let y = if 'A' <= w[i] && w[i] <= 'Z' { (((w[i] as u32) + 32) as u8) as char } else { w[i] };
        if x != y {
            return false;
        }
        i = i + 1;
    }
    true
}

/// Whether a file does not belong in an artifact.
pub fn is_artifact_junk(path: &str) -> (r: bool)
    ensures
        r == junk_path(path@),
{
    let v = chars_of(path);
    let n = v.len();
    let mut s = n;
    assert(v@.take(n as int) == v@);
    assert(v@.subrange(n as int, n as int) == Seq::<char>::empty());
    while s > 0 && v[s - 1] != '/'
        invariant
            s <= n == v.len(),
            v@ == path@,
            crate::live::last_segment(v@) == crate::live::last_segment(v@.take(s as int)) + v@.subrange(s as int, n as int),
        decreases s,
    {
        assert(v@.take(s as int).drop_last() == v@.take(s - 1));
        assert(v@.subrange(s - 1, n as int) == seq![v@[s - 1]] + v@.subrange(s as int, n as int));
        s = s - 1;
    }
    proof {
        if s > 0 {
            assert(v@.take(s as int).last() == '/');
        }
        assert(crate::live::last_segment(v@.take(s as int)).len() == 0);
        assert(crate::live::last_segment(v@) == v@.subrange(s as int, n as int));
    }
    let name: Vec<char> = {
        let t = string_from_range(&v, s, n);
        chars_of(t.as_str())
    };
    proof {
        reveal_strlit("..");
        reveal_strlit(".gitkeep");
        reveal_strlit(".DS_Store");
        reveal_strlit("Thumbs.db");
    }
    let junk_name = same_ignoring_case(&name, ".gitkeep") || same_ignoring_case(&name, ".DS_Store")
        || same_ignoring_case(&name, "Thumbs.db");
    proof {
        if junk_name {
            assert(name@.len() > 0);
            assert(name@ != ".."@) by {
                if name@ == ".."@ {
                    assert(name@.len() == 2);
                }
            }
        }
    }
    junk_name || crate::live::has_extension(path, "tmp")
}

/// How one entry of the copy plan is copied.
#[derive(Debug, Clone, Copy, PartialEq, Eq, Structural)]
pub enum CopyKind {
    /// A file that must exist.
    File,
    /// A directory tree, copied when it exists.
    TreeIfPresent,
}

/// One copy of the plan: kind, source, destination.
pub type CopyView = (CopyKind, Seq<char>, Seq<char>);

/// The copies that map a source-oriented tree into one game build.
pub open spec fn build_copies(source_root: Seq<char>, destination: Seq<char>, build: Seq<char>) -> Seq<CopyView> {
    let build_root = destination + "/"@ + build;
    let media_root = build_root + "/media"@;
    seq![
        (CopyKind::File, source_root + "/mod.info"@, build_root + "/mod.info"@),
        (CopyKind::TreeIfPresent, source_root + "/media"@, media_root),
        (CopyKind::TreeIfPresent, source_root + "/client"@, media_root + "/lua/client"@),
        (CopyKind::TreeIfPresent, source_root + "/shared"@, media_root + "/lua/shared"@),
        (CopyKind::TreeIfPresent, source_root + "/server"@, media_root + "/lua/server"@),
    ]
}

/// The copies for every configured build, in build order.
pub open spec fn source_copies_of(source_root: Seq<char>, destination: Seq<char>, builds: Seq<Seq<char>>) -> Seq<CopyView>
    decreases builds.len(),
{
    if builds.len() == 0 {
        seq![]
    } else {
        source_copies_of(source_root, destination, builds.drop_last()) + build_copies(source_root, destination, builds.last())
    }
}

/// A copy plan as plain values.
pub open spec fn plan_view(p: Seq<(CopyKind, String, String)>) -> Seq<CopyView> {
    p.map_values(|e: (CopyKind, String, String)| (e.0, e.1@, e.2@))
}

fn joined2(a: &str, b: &str) -> (r: String)
    ensures
        r@ == a@ + b@,
{
    let mut s = String::new();
    push_str(&mut s, a);
    push_str(&mut s, b);
    s
}

/// Maps the source-oriented project tree into each configured game build:
/// its `mod.info`, its `media` tree, and the `client`, `shared` and `server`
/// Lua scopes under `media/lua`.
pub fn source_copies(source_root: &str, destination: &str, builds: &Vec<String>) -> (r: Vec<(CopyKind, String, String)>)
    ensures
        plan_view(r@) == source_copies_of(source_root@, destination@, strs(builds@)),
{
    let mut r: Vec<(CopyKind, String, String)> = Vec::new();
    let mut i: usize = 0;
    while i < builds.len()
        invariant
            i <= builds.len(),
            plan_view(r@) == source_copies_of(source_root@, destination@, strs(builds@).take(i as int)),
        decreases builds.len() - i,
    {
        assert(strs(builds@).take(i + 1).drop_last() == strs(builds@).take(i as int));
        let build_root = {
            let mut s = joined2(destination, "/");
            push_str(&mut s, builds[i].as_str());
            s
        };
        let media_root = joined2(build_root.as_str(), "/media");
        let ghost before = plan_view(r@);
        r.push((CopyKind::File, joined2(source_root, "/mod.info"), joined2(build_root.as_str(), "/mod.info")));
        r.push((CopyKind::TreeIfPresent, joined2(source_root, "/media"), media_root.clone()));
        r.push((CopyKind::TreeIfPresent, joined2(source_root, "/client"), joined2(media_root.as_str(), "/lua/client")));
        r.push((CopyKind::TreeIfPresent, joined2(source_root, "/shared"), joined2(media_root.as_str(), "/lua/shared")));
        r.push((CopyKind::TreeIfPresent, joined2(source_root, "/server"), joined2(media_root.as_str(), "/lua/server")));
        assert(plan_view(r@) =~= before + build_copies(source_root@, destination@, builds@[i as int]@));
        i = i + 1;
    }
    assert(strs(builds@).take(builds.len() as int) == strs(builds@));
    r
}

/// `s` with every non-overlapping occurrence of `pat`, found left to right,
/// replaced by `by` (`str::replace`).
pub open spec fn replace_all(s: Seq<char>, pat: Seq<char>, by: Seq<char>) -> Seq<char>
    decreases s.len(),
{
    match find_seq(s, pat) {
        Some(i) => {
            proof {
                crate::text::lemma_find_seq(s, pat);
            }
            s.take(i) + by + replace_all(s.skip(i + pat.len()), pat, by)
        },
        None => s,
    }
}

/// Replaces every occurrence of a non-empty pattern.
pub fn replace_str(s: &str, pat: &str, by: &str) -> (r: String)
    requires
        pat@.len() > 0,
    ensures
        r@ == replace_all(s@, pat@, by@),
{
    let v = chars_of(s);
    let p = chars_of(pat);
    let mut out = String::new();
    let mut pos: usize = 0;
    assert(v@.skip(0) == v@);
    while pos < v.len()
        invariant
            pos <= v.len(),
            v@ == s@,
            p@ == pat@,
            p.len() > 0,
            replace_all(s@, pat@, by@) == out@ + replace_all(v@.skip(pos as int), p@, by@),
        decreases v.len() - pos,
    {
        let q = crate::text::find_seq_from(&v, pos, &p);
        proof {
            crate::text::lemma_find_seq(v@.skip(pos as int), p@);
        }
        if q >= v.len() {
            let rest = string_from_range(&v, pos, v.len());
            push_str(&mut out, rest.as_str());
            assert(v@.skip(pos as int) == v@.subrange(pos as int, v.len() as int));
            return out;
        }
        let head = string_from_range(&v, pos, q);
        push_str(&mut out, head.as_str());
        push_str(&mut out, by);
        proof {
            assert(v@.skip(pos as int).take(q - pos) == v@.subrange(pos as int, q as int));
            assert(v@.skip(pos as int).skip(q - pos + p.len()) == v@.skip(q + p.len()));
        }
        pos = q + p.len();
    }
    proof {
        assert(v@.skip(pos as int).len() == 0);
        assert(find_seq(v@.skip(pos as int), p@) is None);
        assert(out@ + v@.skip(pos as int) == out@);
    }
    out
}

/// The minifier arguments for one file: `{input}` and then `{output}`
/// replaced in each configured argument.
pub open spec fn minify_args_of(args: Seq<Seq<char>>, input: Seq<char>, output: Seq<char>) -> Seq<Seq<char>> {
    args.map_values(|a: Seq<char>| replace_all(replace_all(a, "{input}"@, input), "{output}"@, output))
}

/// The minifier arguments for one file.
pub fn minify_arguments(args: &Vec<String>, input: &str, output: &str) -> (r: Vec<String>)
    ensures
        strs(r@) == minify_args_of(strs(args@), input@, output@),
{
    proof {
        reveal_strlit("{input}");
        reveal_strlit("{output}");
    }
    let mut r: Vec<String> = Vec::new();
    let mut i: usize = 0;
    while i < args.len()
        invariant
            i <= args.len(),
            strs(r@) == minify_args_of(strs(args@).take(i as int), input@, output@),
        decreases args.len() - i,
    {
        proof {
            reveal_strlit("{input}");
            reveal_strlit("{output}");
        }
        let a = replace_str(args[i].as_str(), "{input}", input);
        let b = replace_str(a.as_str(), "{output}", output);
        let ghost before = strs(r@);
        r.push(b);
        proof {
            let t = strs(args@).take(i + 1);
            assert(t =~= strs(args@).take(i as int).push(args@[i as int]@));
            assert(minify_args_of(t, input@, output@) =~= minify_args_of(strs(args@).take(i as int), input@, output@).push(b@));
            assert(strs(r@) =~= before.push(b@));
        }
        i = i + 1;
    }
    assert(strs(args@).take(args.len() as int) == strs(args@));
    r
}

/// Whether the minifier writes a separate output file: some argument names
/// `{output}`.
pub open spec fn writes_output_of(args: Seq<Seq<char>>) -> bool {
    exists|i: int| 0 <= i < args.len() && find_seq(#[trigger] args[i], "{output}"@) is Some
}

/// Whether the minifier writes a separate output file.
pub fn writes_output(args: &Vec<String>) -> (r: bool)
    ensures
        r == writes_output_of(strs(args@)),
{
    proof { reveal_strlit("{output}"); }
    let p = chars_of("{output}");
    assert(p.len() == 8);
    let mut i: usize = 0;
    while i < args.len()
        invariant
            i <= args.len(),
            p@ == "{output}"@,
            p.len() == 8,
            forall|j: int| 0 <= j < i ==> find_seq(#[trigger] strs(args@)[j], "{output}"@) is None,
        decreases args.len() - i,
    {
        let v = chars_of(args[i].as_str());
        let q = crate::text::find_seq_from(&v, 0, &p);
        assert(v@.skip(0) == v@);
        if q < v.len() {
            assert(find_seq(strs(args@)[i as int], "{output}"@) is Some);
            return true;
        }
        i = i + 1;
    }
    false
}

/// The file the minifier writes for a source (`Path::with_extension`
/// with `lua.knoxmancer`).
pub open spec fn generated_of(source: Seq<char>) -> Seq<char> {
    match extension_of(source) {
        Some(e) => source.take(source.len() - e.len()) + "lua.knoxmancer"@,
        None => source + ".lua.knoxmancer"@,
    }
}

/// The file the minifier writes for a source file.
pub fn generated_path(source: &str) -> (r: String)
    requires
        crate::live::file_name_of(source@) is Some,
    ensures
        r@ == generated_of(source@),
{
    let v = chars_of(source);
    match crate::live::extension(source) {
        Some(e) => {
            let n = chars_of(e.as_str()).len();
            proof {
                crate::live::lemma_extension_suffix(source@);
            }
            let mut s = string_from_range(&v, 0, v.len() - n);
            push_str(&mut s, "lua.knoxmancer");
            assert(v@.subrange(0, v.len() - n) == v@.take(v.len() - n));
            s
        },
        None => {
            let mut s = String::new();
            push_str(&mut s, source);
            push_str(&mut s, ".lua.knoxmancer");
            s
        },
    }
}

/// The report of a minifier run that failed for one file.
pub fn minifier_failure(source: &str, output: &ProcessOutput) -> (r: Error)
    ensures
        crate::replace::is_io_error(r, "minifier failed for "@ + source@ + " with "@ + status_text(output.code)
            + failure_text(output_lines(output.stdout@, output.stderr@))),
{
    let mut m = String::new();
    push_str(&mut m, "minifier failed for ");
    push_str(&mut m, source);
    push_str(&mut m, " with ");
    let status = output.status_description();
    push_str(&mut m, status.as_str());
    let detail = output.failure_detail();
    push_str(&mut m, detail.as_str());
    Error::io_text(m.as_str())
}

/// The report of a minifier run that wrote no output file.
pub fn minifier_no_output(source: &str) -> (r: Error)
    ensures
        crate::replace::is_io_error(r, "minifier produced no output for "@ + source@),
{
    let mut m = String::new();
    push_str(&mut m, "minifier produced no output for ");
    push_str(&mut m, source);
    Error::io_text(m.as_str())
}

} // verus!
