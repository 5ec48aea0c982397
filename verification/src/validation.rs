//! Cross-file project validation: the problems found in what the caller
//! read from the project, and the validated mod identity.
//!
//! The caller reads files and walks directories; [`Checks`] decides which
//! problems each observation produces, in the order the checks run.

use vstd::prelude::*;

use crate::diagnostic::{diag_view, diagnostic_text, diags_view, DiagView, Diagnostic};
use crate::error::{join_lines, diagnostic_texts, Error, ErrorKind};
use crate::live::ascii_lower;
use crate::metadata::{metadata_view, regex_capture, regex_first_capture, ModMetadata};
use crate::paths::{copy_paths, strs};
use crate::text::{chars_of, decimal, fmt_u128, push_char, push_str, str_eq};

verus! {

/// Steam Workshop's strict preview-file size limit, in bytes (exclusive).
pub const PREVIEW_MAX_BYTES: u64 = 1_000_000;

/// The one supported Project Zomboid build.
pub open spec fn supported_build() -> Seq<char> {
    "42"@
}

/// The pattern of a release heading in the changelog.
pub open spec fn release_heading_pattern() -> Seq<char> {
    "(?m)^## (\\d+\\.\\d+\\.\\d+)\\s*$"@
}

/// A diagnostic with a path.
pub open spec fn at(code: Seq<char>, path: Seq<char>, message: Seq<char>) -> DiagView {
    (code, Some(path), message)
}

/// A diagnostic without a path.
pub open spec fn plain(code: Seq<char>, message: Seq<char>) -> DiagView {
    (code, None, message)
}

/// The problems of a metadata list against its first entry, in order.
pub open spec fn mismatches(ms: Seq<(Seq<char>, Seq<char>, Seq<char>, Seq<char>)>) -> Seq<DiagView>
    decreases ms.len(),
{
    if ms.len() <= 1 {
        seq![]
    } else {
        let first = ms[0];
        let v = ms.last();
        mismatches(ms.drop_last()) + (if v.1 != first.1 {
            seq![plain("metadata.id.mismatch"@, v.3 + " build metadata uses ID "@ + v.1 + ", expected "@ + first.1)]
        } else {
            seq![]
        }) + (if v.2 != first.2 {
            seq![plain("metadata.version.mismatch"@, v.3 + " build metadata uses version "@ + v.2 + ", expected "@ + first.2)]
        } else {
            seq![]
        })
    }
}

/// The changelog problem, if any, given the first release heading found.
pub open spec fn changelog_problem_of(path: Seq<char>, version: Seq<char>, found: Option<Seq<char>>) -> Seq<DiagView> {
    match found {
        Some(f) => if f == version {
            seq![]
        } else {
            seq![at("changelog.version.mismatch"@, path, "first release is "@ + f + ", expected "@ + version)]
        },
        None => seq![at("changelog.version.missing"@, path, "add `## "@ + version + "` as the first release"@)],
    }
}

/// The preview problems for its byte length and its inspection outcome.
pub open spec fn preview_problems_of(path: Seq<char>, len: nat, inspected: Result<(u32, u32), Seq<char>>) -> Seq<DiagView> {
    (if len >= PREVIEW_MAX_BYTES {
        seq![at("preview.too_large"@, path, "preview must be under 1000 KB"@)]
    } else {
        seq![]
    }) + match inspected {
        Ok((w, h)) => if w == 256 && h == 256 {
            seq![]
        } else {
            seq![at("preview.dimensions.invalid"@, path, "preview must be 256x256, found "@ + decimal(w as nat) + "x"@ + decimal(h as nat))]
        },
        Err(e) => seq![at("preview.invalid_png"@, path, "preview is not a valid PNG: "@ + e)],
    }
}

/// Where a release include lands in the Workshop package.
pub open spec fn release_destination_of(file_name: Seq<char>) -> Seq<char> {
    if file_name == "LICENSE"@ {
        "mod/license"@
    } else {
        "root/"@ + file_name.map_values(|c: char| ascii_lower(c))
    }
}

/// The destination table of a Workshop package, as plain values.
pub open spec fn table_view(t: Seq<(String, String)>) -> Seq<(Seq<char>, Seq<char>)> {
    t.map_values(|e: (String, String)| (e.0@, e.1@))
}

/// The source previously recorded for a destination.
pub open spec fn table_lookup(t: Seq<(Seq<char>, Seq<char>)>, dest: Seq<char>) -> Option<Seq<char>>
    decreases t.len(),
{
    if t.len() == 0 {
        None
    } else if t.last().0 == dest {
        Some(t.last().1)
    } else {
        table_lookup(t.drop_last(), dest)
    }
}

/// The `/`-separated components of a path.
pub open spec fn components(p: Seq<char>) -> Seq<Seq<char>>
    decreases p.len(),
{
    if p.len() == 0 {
        seq![seq![]]
    } else {
        let rest = components(p.drop_last());
        if p.last() == '/' {
            rest.push(seq![])
        } else {
            rest.update(rest.len() - 1, rest.last().push(p.last()))
        }
    }
}

pub(crate) proof fn lemma_components_nonempty(p: Seq<char>)
    ensures
        components(p).len() >= 1,
    decreases p.len(),
{
    if p.len() > 0 {
        lemma_components_nonempty(p.drop_last());
    }
}

/// Where a release include lands in the Workshop package.
pub fn release_destination(file_name: &str) -> (r: String)
    ensures
        r@ == release_destination_of(file_name@),
{
    proof { reveal_strlit("LICENSE"); reveal_strlit("mod/license"); reveal_strlit("root/"); }
    if str_eq(file_name, "LICENSE") {
        return "mod/license".to_owned();
    }
    let v = chars_of(file_name);
    let mut r = String::new();
    push_str(&mut r, "root/");
    let mut i: usize = 0;
    while i < v.len()
        invariant
            i <= v.len(),
            v@ == file_name@,
            r@ == "root/"@ + v@.take(i as int).map_values(|c: char| ascii_lower(c)),
        decreases v.len() - i,
    {
        let c = v[i];
        let l = if 'A' <= c && c <= 'Z' { (((c as u32) + 32) as u8) as char } else { c };
        push_char(&mut r, l);
        assert(v@.take(i + 1).map_values(|c: char| ascii_lower(c)) =~= v@.take(i as int).map_values(|c: char| ascii_lower(c)).push(ascii_lower(c)));
        i = i + 1;
    }
    assert(v@.take(v.len() as int) == v@);
    r
}

/// The destinations of a Workshop package before any release include:
/// the preview and metadata copied from the public directory.
pub fn release_table() -> (r: Vec<(String, String)>)
    ensures
        table_view(r@) == seq![("root/preview.png"@, "public/preview.png"@), ("root/workshop.txt"@, "public/workshop.txt"@)],
{
    let mut r: Vec<(String, String)> = Vec::new();
    r.push(("root/preview.png".to_owned(), "public/preview.png".to_owned()));
    r.push(("root/workshop.txt".to_owned(), "public/workshop.txt".to_owned()));
    assert(table_view(r@) =~= seq![("root/preview.png"@, "public/preview.png"@), ("root/workshop.txt"@, "public/workshop.txt"@)]);
    r
}

/// The problems of one release include: a missing file, and a destination
/// already taken in the package.
pub open spec fn release_problems_of(
    table: Seq<(Seq<char>, Seq<char>)>,
    path: Seq<char>,
    included: Seq<char>,
    file_name: Option<Seq<char>>,
    is_file: bool,
) -> Seq<DiagView> {
    (if is_file {
        seq![]
    } else {
        seq![at("release.include.missing"@, path, "release file is missing"@)]
    }) + match file_name {
        None => seq![],
        Some(f) => match table_lookup(table, release_destination_of(f)) {
            Some(prev) => seq![at("release.include.collision"@, path, "release include "@ + included + " conflicts with "@ + prev + " in the Workshop package"@)],
            None => seq![],
        },
    }
}

/// The source recorded last for a package destination.
pub fn lookup_destination(table: &Vec<(String, String)>, dest: &str) -> (r: Option<String>)
    ensures
        match table_lookup(table_view(table@), dest@) {
            Some(p) => r matches Some(x) && x@ == p,
            None => r is None,
        },
{
    let ghost t0 = table_view(table@);
    let mut k = table.len();
    assert(t0.take(t0.len() as int) == t0);
    while k > 0
        invariant
            k <= table.len(),
            t0 == table_view(table@),
            table_lookup(t0, dest@) == table_lookup(t0.take(k as int), dest@),
        decreases k,
    {
        proof {
            assert(t0.take(k as int).drop_last() == t0.take(k - 1));
            assert(t0.take(k as int).last() == (table@[k - 1].0@, table@[k - 1].1@));
        }
        if str_eq(table[k - 1].0.as_str(), dest) {
            return Some(table[k - 1].1.clone());
        }
        k = k - 1;
    }
    None
}

/// Whether `serde_json` accepts a text as a JSON document.
pub uninterp spec fn json_parses(text: Seq<char>) -> bool;

/// Parses a text with `serde_json::from_str` into a `serde_json::Value` and
/// reports whether the parse succeeded. The result is taken as stated by the
/// name [`json_parses`]: what JSON grammar `serde_json` accepts is left unsaid.
#[verifier::external_body]
fn parses_as_json(text: &str) -> (r: bool)
    ensures
        r == json_parses(text@),
{
    serde_json::from_str::<serde_json::Value>(text).is_ok()
}

/// Whether a `/`-separated path names a `.json` file under a `Translate`
/// directory.
pub open spec fn translation_path(p: Seq<char>) -> bool {
    &&& crate::live::extension_of(p) == Some("json"@)
    &&& components(p).contains("Translate"@)
}

/// Whether a walked path is a translation file: extension `json`, and a
/// `Translate` component.
pub fn is_translation_path(path: &str) -> (r: bool)
    ensures
        r == translation_path(path@),
{
    let ext = crate::live::extension(path);
    let is_json = match ext {
        Some(e) => {
            proof { reveal_strlit("json"); }
            str_eq(e.as_str(), "json")
        },
        None => false,
    };
    if !is_json {
        return false;
    }
    let v = chars_of(path);
    let mut found = false;
    let mut cur = String::new();
    let mut i: usize = 0;
    proof { reveal_strlit("Translate"); }
    assert(components(v@.take(0)) =~= seq![seq![]]);
    while i < v.len()
        invariant
            i <= v.len(),
            v@ == path@,
            components(v@.take(i as int)).last() == cur@,
            found == components(v@.take(i as int)).drop_last().contains("Translate"@),
        decreases v.len() - i,
    {
        let ghost cs = components(v@.take(i as int));
        proof {
            lemma_components_nonempty(v@.take(i as int));
            assert(v@.take(i + 1).drop_last() == v@.take(i as int));
            assert(v@.take(i + 1).last() == v@[i as int]);
        }
        if v[i] == '/' {
            let done = str_eq(cur.as_str(), "Translate");
            found = found || done;
            cur = String::new();
            proof {
                let ns = components(v@.take(i + 1));
                assert(ns == cs.push(seq![]));
                assert(ns.drop_last() == cs);
                assert(cs =~= cs.drop_last().push(cs.last()));
                vstd::seq_lib::lemma_seq_contains_after_push(cs.drop_last(), cs.last(), "Translate"@);
            }
        } else {
            push_char(&mut cur, v[i]);
            proof {
                let ns = components(v@.take(i + 1));
                assert(ns.drop_last() =~= cs.drop_last());
            }
        }
        i = i + 1;
    }
    assert(v@.take(v.len() as int) == v@);
    let last = str_eq(cur.as_str(), "Translate");
    proof {
        let cs = components(v@);
        lemma_components_nonempty(v@);
        assert(cs =~= cs.drop_last().push(cs.last()));
        vstd::seq_lib::lemma_seq_contains_after_push(cs.drop_last(), cs.last(), "Translate"@);
    }
    found || last
}

/// The problem of a required public file, if it is missing.
pub open spec fn missing_file(path: Seq<char>, present: bool) -> Seq<DiagView> {
    if present {
        seq![]
    } else {
        seq![at("public.file.missing"@, path, "required file is missing"@)]
    }
}

/// The texts of a list of diagnostics given as plain values.
pub open spec fn view_texts(ds: Seq<DiagView>) -> Seq<Seq<char>> {
    ds.map_values(|d: DiagView| diagnostic_text(d.0, d.1, d.2))
}

/// The check that is owed next. The checks run in this order; a check
/// that does not apply to the check's target records nothing, but is still
/// passed through.
#[derive(PartialEq, Eq, Structural, Clone, Copy)]
pub enum CheckStage {
    /// Each configured build, in order.
    Builds,
    /// The changelog's first release.
    Changelog,
    /// The required public files.
    PublicFiles,
    /// The preview image.
    Preview,
    /// The Workshop metadata file.
    WorkshopFile,
    /// Lua placed in the generated tree of the sources.
    SourceLayout,
    /// Each translation file of the sources.
    Translations,
    /// Each configured release include, in order.
    ReleaseIncludes,
}

/// Problems found so far, the metadata read so far, and how far the checks
/// have come.
pub struct Checks {
    /// Problems in the order found.
    problems: Vec<Diagnostic>,
    /// Metadata of each supported build, in build order.
    metadata: Vec<ModMetadata>,
    /// Whether Workshop publishing inputs are checked too; a playable check
    /// reads only the builds, their metadata, the source layout and the
    /// translations.
    workshop: bool,
    /// The configured builds.
    builds: Vec<String>,
    /// How many configured builds have been recorded.
    builds_done: usize,
    /// The check owed next.
    stage: CheckStage,
    /// How many release includes are configured.
    includes: usize,
    /// How many release includes have been recorded.
    includes_done: usize,
}

impl Checks {
    /// The problems as plain values.
    pub closed spec fn found(&self) -> Seq<DiagView> {
        diags_view(self.problems@)
    }

    /// Whether this check covers Workshop publishing inputs.
    pub closed spec fn for_workshop(&self) -> bool {
        self.workshop
    }

    /// The metadata as plain values.
    pub closed spec fn read(&self) -> Seq<(Seq<char>, Seq<char>, Seq<char>, Seq<char>)> {
        self.metadata@.map_values(|m: ModMetadata| metadata_view(m))
    }

    /// The configured builds.
    pub closed spec fn builds(&self) -> Seq<Seq<char>> {
        strs(self.builds@)
    }

    /// The number of configured builds recorded so far.
    pub closed spec fn builds_recorded(&self) -> nat {
        self.builds_done as nat
    }

    /// The check owed next.
    pub closed spec fn stage(&self) -> CheckStage {
        self.stage
    }

    /// The number of configured release includes.
    pub closed spec fn includes_owed(&self) -> nat {
        self.includes as nat
    }

    /// The number of release includes recorded so far.
    pub closed spec fn includes_recorded(&self) -> nat {
        self.includes_done as nat
    }

    /// What every step keeps: the check's target and what it owes.
    pub open spec fn keeps_settings(&self, before: &Self) -> bool {
        &&& self.for_workshop() == before.for_workshop()
        &&& self.builds() == before.builds()
        &&& self.includes_owed() == before.includes_owed()
    }

    /// One step of the checks: the metadata and the counts are kept and
    /// `stage` is owed next.
    pub open spec fn moved_to(&self, before: &Self, stage: CheckStage) -> bool {
        &&& self.keeps_settings(before)
        &&& self.read() == before.read()
        &&& self.builds_recorded() == before.builds_recorded()
        &&& self.includes_recorded() == before.includes_recorded()
        &&& self.stage() == stage
    }

    /// The problems found so far.
    pub fn problems(&self) -> (r: &Vec<Diagnostic>)
        ensures
            diags_view(r@) == self.found(),
    {
        &self.problems
    }

    /// Starts checking a manifest's build list and `includes` release
    /// includes, for local play or, with `workshop`, for Workshop publishing.
    pub fn new(manifest_path: &str, builds: &Vec<String>, includes: usize, workshop: bool) -> (r: Self)
        ensures
            r.for_workshop() == workshop,
            r.found() == (if builds.len() == 0 {
                seq![at("project.builds.empty"@, manifest_path@, "project.builds must not be empty"@)]
            } else {
                seq![]
            }),
            r.read().len() == 0,
            r.builds() == strs(builds@),
            r.builds_recorded() == 0,
            r.includes_owed() == includes,
            r.includes_recorded() == 0,
            r.stage() == CheckStage::Builds,
    {
        let mut problems: Vec<Diagnostic> = Vec::new();
        if builds.len() == 0 {
            let d = Diagnostic::at("project.builds.empty", manifest_path, "project.builds must not be empty");
            problems.push(d);
            proof {
                reveal_strlit("project.builds.empty");
                reveal_strlit("project.builds must not be empty");
            }
            assert(diags_view(problems@) =~= seq![diag_view(d)]);
        } else {
            assert(diags_view(problems@) =~= Seq::<DiagView>::empty());
        }
        let owned = copy_paths(builds);
        let r = Checks {
            problems,
            metadata: Vec::new(),
            workshop,
            builds: owned,
            builds_done: 0,
            stage: CheckStage::Builds,
            includes,
            includes_done: 0,
        };
        assert(r.read() =~= Seq::<(Seq<char>, Seq<char>, Seq<char>, Seq<char>)>::empty());
        r
    }

    /// Whether a build's metadata is read: only the supported build's.
    pub fn needs_metadata(build: &str) -> (r: bool)
        ensures
            r == (build@ == supported_build()),
    {
        proof { reveal_strlit("42"); }
        str_eq(build, "42")
    }

    fn push(&mut self, d: Diagnostic)
        ensures
            final(self).problems@ == old(self).problems@.push(d),
            final(self).found() == old(self).found().push(diag_view(d)),
            final(self).metadata@ == old(self).metadata@,
            final(self).workshop == old(self).workshop,
            final(self).builds@ == old(self).builds@,
            final(self).builds_done == old(self).builds_done,
            final(self).stage == old(self).stage,
            final(self).includes == old(self).includes,
            final(self).includes_done == old(self).includes_done,
    {
        self.problems.push(d);
        assert(self.found() =~= old(self).found().push(diag_view(d)));
    }

    /// Records the next configured build: an unsupported build is a
    /// problem; the supported build contributes its metadata, or the reason
    /// it is invalid.
    pub fn record_build(&mut self, manifest_path: &str, build: &str, read: Option<Result<ModMetadata, Error>>)
        requires
            old(self).stage() == CheckStage::Builds,
            old(self).builds_recorded() < old(self).builds().len(),
            build@ == old(self).builds()[old(self).builds_recorded() as int],
            build@ == supported_build() ==> read is Some,
        ensures
            final(self).keeps_settings(old(self)),
            final(self).stage() == CheckStage::Builds,
            final(self).builds_recorded() == old(self).builds_recorded() + 1,
            final(self).includes_recorded() == old(self).includes_recorded(),
            build@ != supported_build() ==> final(self).found() == old(self).found().push(
                at("project.build.unsupported"@, manifest_path@, "unsupported Project Zomboid build: "@ + build@),
            ) && final(self).read() == old(self).read(),
            build@ == supported_build() ==> match read {
                Some(Ok(m)) => final(self).found() == old(self).found() && final(self).read() == old(self).read().push(metadata_view(m)),
                Some(Err(e)) => final(self).found() == old(self).found().push(plain("metadata.invalid"@, e.message@)) && final(self).read() == old(self).read(),
                None => false,
            },
    {
        let done = self.builds_done;
        assert(done < self.builds.len());
        if !Self::needs_metadata(build) {
            let mut m = String::new();
            push_str(&mut m, "unsupported Project Zomboid build: ");
            push_str(&mut m, build);
            self.push(Diagnostic::at("project.build.unsupported", manifest_path, m.as_str()));
            proof { reveal_strlit("project.build.unsupported"); }
        } else {
            match read {
                Some(Ok(m)) => {
                    self.metadata.push(m);
                    assert(self.read() =~= old(self).read().push(metadata_view(m)));
                },
                Some(Err(e)) => {
                    self.push(Diagnostic::new("metadata.invalid", e.message.as_str()));
                    proof { reveal_strlit("metadata.invalid"); }
                },
                None => {},
            }
        }
        self.builds_done = done + 1;
    }

    /// Records each later build whose ID or version differs from the first.
    /// Owed once every configured build is recorded.
    pub fn record_mismatches(&mut self)
        requires
            old(self).stage() == CheckStage::Builds,
            old(self).builds_recorded() == old(self).builds().len(),
        ensures
            final(self).moved_to(old(self), CheckStage::Changelog),
            final(self).found() == old(self).found() + mismatches(old(self).read()),
    {
        if self.metadata.len() == 0 {
            assert(old(self).found() + seq![] == old(self).found());
            self.stage = CheckStage::Changelog;
            return;
        }
        let ghost ms = self.read();
        let ghost start = self.found();
        let mut i: usize = 1;
        assert(mismatches(ms.take(1)) == Seq::<DiagView>::empty());
        while i < self.metadata.len()
            invariant
                1 <= i <= self.metadata.len(),
                ms == self.read(),
                ms.len() == self.metadata.len(),
                self.found() == start + mismatches(ms.take(i as int)),
                self.workshop == old(self).workshop,
                self.builds@ == old(self).builds@,
                self.builds_done == old(self).builds_done,
                self.stage == old(self).stage,
                self.includes == old(self).includes,
                self.includes_done == old(self).includes_done,
            decreases self.metadata.len() - i,
        {
            let ghost before = self.found();
            assert(ms.take(i + 1).drop_last() == ms.take(i as int));
            assert(ms.take(i + 1)[0] == ms[0]);
            assert(ms.take(i + 1).last() == ms[i as int]);
            let first_id = self.metadata[0].id.clone();
            let first_version = self.metadata[0].version.clone();
            let id = self.metadata[i].id.clone();
            let version = self.metadata[i].version.clone();
            let build = self.metadata[i].build.clone();
            if !str_eq(id.as_str(), first_id.as_str()) {
                let mut m = String::new();
                push_str(&mut m, build.as_str());
                push_str(&mut m, " build metadata uses ID ");
                push_str(&mut m, id.as_str());
                push_str(&mut m, ", expected ");
                push_str(&mut m, first_id.as_str());
                self.push(Diagnostic::new("metadata.id.mismatch", m.as_str()));
                proof { reveal_strlit("metadata.id.mismatch"); }
            }
            let ghost mid = self.found();
            if !str_eq(version.as_str(), first_version.as_str()) {
                let mut m = String::new();
                push_str(&mut m, build.as_str());
                push_str(&mut m, " build metadata uses version ");
                push_str(&mut m, version.as_str());
                push_str(&mut m, ", expected ");
                push_str(&mut m, first_version.as_str());
                self.push(Diagnostic::new("metadata.version.mismatch", m.as_str()));
                proof { reveal_strlit("metadata.version.mismatch"); }
            }
            proof {
                let v = ms[i as int];
                let f = ms[0];
                let a: Seq<DiagView> = if v.1 != f.1 {
                    seq![plain("metadata.id.mismatch"@, v.3 + " build metadata uses ID "@ + v.1 + ", expected "@ + f.1)]
                } else {
                    seq![]
                };
                let b: Seq<DiagView> = if v.2 != f.2 {
                    seq![plain("metadata.version.mismatch"@, v.3 + " build metadata uses version "@ + v.2 + ", expected "@ + f.2)]
                } else {
                    seq![]
                };
                assert(mid =~= before + a);
                assert(self.found() =~= mid + b);
                assert(mismatches(ms.take(i + 1)) == mismatches(ms.take(i as int)) + a + b);
                assert(self.found() =~= start + mismatches(ms.take(i + 1)));
            }
            i = i + 1;
        }
        assert(ms.take(self.metadata.len() as int) == ms);
        self.stage = CheckStage::Changelog;
    }

    /// Records the changelog problem, given the first release heading found.
    fn record_changelog_heading(&mut self, path: &str, version: &str, found: Option<String>)
        ensures
            final(self).problems@.len() >= old(self).problems@.len(),
            final(self).metadata@ == old(self).metadata@,
            final(self).workshop == old(self).workshop,
            final(self).builds@ == old(self).builds@,
            final(self).builds_done == old(self).builds_done,
            final(self).stage == old(self).stage,
            final(self).includes == old(self).includes,
            final(self).includes_done == old(self).includes_done,
            final(self).found() == old(self).found() + changelog_problem_of(
                path@,
                version@,
                match found {
                    Some(f) => Some(f@),
                    None => None,
                },
            ),
    {
        match found {
            Some(f) => {
                if str_eq(f.as_str(), version) {
                    assert(old(self).found() + seq![] == old(self).found());
                    return;
                }
                let mut m = String::new();
                push_str(&mut m, "first release is ");
                push_str(&mut m, f.as_str());
                push_str(&mut m, ", expected ");
                push_str(&mut m, version);
                self.push(Diagnostic::at("changelog.version.mismatch", path, m.as_str()));
                proof { reveal_strlit("changelog.version.mismatch"); }
            },
            None => {
                let mut m = String::new();
                push_str(&mut m, "add `## ");
                push_str(&mut m, version);
                push_str(&mut m, "` as the first release");
                self.push(Diagnostic::at("changelog.version.missing", path, m.as_str()));
                proof { reveal_strlit("changelog.version.missing"); }
            },
        }
    }


    /// Whether the changelog is owed: for a Workshop check, once metadata
    /// was read.
    pub fn wants_changelog(&self) -> (r: bool)
        ensures
            r == (self.for_workshop() && self.read().len() > 0),
    {
        self.workshop && self.metadata.len() > 0
    }

    /// Checks that the changelog's first release is the first build's
    /// version, given the changelog text (or the message of the failure to
    /// read it); `None` where the changelog is not owed and was not read.
    pub fn record_changelog(&mut self, path: &str, source: Option<Result<String, String>>)
        requires
            old(self).stage() == CheckStage::Changelog,
            old(self).for_workshop() && old(self).read().len() > 0 ==> source is Some,
        ensures
            final(self).moved_to(old(self), CheckStage::PublicFiles),
            final(self).found() == old(self).found() + if old(self).for_workshop() && old(self).read().len() > 0 {
                match source {
                    Some(Err(e)) => seq![at("changelog.unreadable"@, path@, e@)],
                    Some(Ok(s)) => changelog_problem_of(path@, old(self).read()[0].2, regex_first_capture(release_heading_pattern(), s@)),
                    None => seq![],
                }
            } else {
                seq![]
            },
    {
        if !(self.workshop && self.metadata.len() > 0) {
            assert(old(self).found() + seq![] == old(self).found());
            self.stage = CheckStage::PublicFiles;
            return;
        }
        let version = self.metadata[0].version.clone();
        assert(version@ == old(self).read()[0].2);
        match source {
            Some(Err(e)) => {
                self.push(Diagnostic::at("changelog.unreadable", path, e.as_str()));
                proof { reveal_strlit("changelog.unreadable"); }
                assert(old(self).found().push(at("changelog.unreadable"@, path@, e@)) == old(self).found() + seq![at("changelog.unreadable"@, path@, e@)]);
            },
            Some(Ok(s)) => {
                let found = regex_capture("(?m)^## (\\d+\\.\\d+\\.\\d+)\\s*$", s.as_str());
                self.record_changelog_heading(path, version.as_str(), found);
            },
            None => {
                assert(old(self).found() + seq![] == old(self).found());
            },
        }
        self.stage = CheckStage::PublicFiles;
    }

    fn record_missing(&mut self, path: &str, present: bool)
        ensures
            final(self).found() == old(self).found() + missing_file(path@, present),
            final(self).problems@.len() >= old(self).problems@.len(),
            final(self).metadata@ == old(self).metadata@,
            final(self).workshop == old(self).workshop,
            final(self).builds@ == old(self).builds@,
            final(self).builds_done == old(self).builds_done,
            final(self).stage == old(self).stage,
            final(self).includes == old(self).includes,
            final(self).includes_done == old(self).includes_done,
    {
        if present {
            assert(old(self).found() + seq![] == old(self).found());
        } else {
            self.push(Diagnostic::at("public.file.missing", path, "required file is missing"));
            proof {
                reveal_strlit("public.file.missing");
                reveal_strlit("required file is missing");
            }
            assert(self.found() == old(self).found() + seq![at("public.file.missing"@, path@, "required file is missing"@)]);
        }
    }

    /// Records the required public files under `public_root` that are
    /// missing: the description, the preview and the Workshop metadata.
    pub fn record_public_files(&mut self, public_root: &str, description: bool, preview: bool, workshop_file: bool)
        requires
            old(self).stage() == CheckStage::PublicFiles,
        ensures
            final(self).moved_to(old(self), CheckStage::Preview),
            final(self).found() == old(self).found() + if old(self).for_workshop() {
                missing_file(public_root@ + "/description.md"@, description)
                    + missing_file(public_root@ + "/preview.png"@, preview)
                    + missing_file(public_root@ + "/workshop.txt"@, workshop_file)
            } else {
                seq![]
            },
    {
        if !self.workshop {
            assert(old(self).found() + seq![] == old(self).found());
            self.stage = CheckStage::Preview;
            return;
        }
        let ghost start = self.found();
        let mut p = String::new();
        push_str(&mut p, public_root);
        push_str(&mut p, "/description.md");
        self.record_missing(p.as_str(), description);
        let ghost a = self.found();
        let mut q = String::new();
        push_str(&mut q, public_root);
        push_str(&mut q, "/preview.png");
        self.record_missing(q.as_str(), preview);
        let ghost b = self.found();
        let mut w = String::new();
        push_str(&mut w, public_root);
        push_str(&mut w, "/workshop.txt");
        self.record_missing(w.as_str(), workshop_file);
        assert(self.found() =~= start + (missing_file(p@, description) + missing_file(q@, preview) + missing_file(w@, workshop_file)));
        self.stage = CheckStage::Preview;
    }

    /// Records the preview problems, given its byte length and how it was
    /// inspected.
    pub fn record_preview_inspection(&mut self, path: &str, len: usize, inspected: Result<(u32, u32), String>)
        requires
            old(self).stage() == CheckStage::Preview,
        ensures
            final(self).moved_to(old(self), CheckStage::WorkshopFile),
            final(self).found() == old(self).found() + if old(self).for_workshop() {
                preview_problems_of(path@, len as nat, crate::preview::res_view(inspected))
            } else {
                seq![]
            },
    {
        if !self.workshop {
            assert(old(self).found() + seq![] == old(self).found());
            self.stage = CheckStage::WorkshopFile;
            return;
        }
        let ghost start = self.found();
        if len as u64 >= PREVIEW_MAX_BYTES {
            self.push(Diagnostic::at("preview.too_large", path, "preview must be under 1000 KB"));
            proof {
                reveal_strlit("preview.too_large");
                reveal_strlit("preview must be under 1000 KB");
            }
        }
        let ghost mid = self.found();
        match inspected {
            Ok((w, h)) => {
                if !(w == 256 && h == 256) {
                    let mut m = String::new();
                    push_str(&mut m, "preview must be 256x256, found ");
                    let a = fmt_u128(w as u128);
                    push_str(&mut m, a.as_str());
                    push_char(&mut m, 'x');
                    let b = fmt_u128(h as u128);
                    push_str(&mut m, b.as_str());
                    self.push(Diagnostic::at("preview.dimensions.invalid", path, m.as_str()));
                    proof {
                        reveal_strlit("preview.dimensions.invalid");
                        reveal_strlit("x");
                    }
                    assert(m@ =~= "preview must be 256x256, found "@ + decimal(w as nat) + "x"@ + decimal(h as nat));
                }
            },
            Err(e) => {
                let mut m = String::new();
                push_str(&mut m, "preview is not a valid PNG: ");
                push_str(&mut m, e.as_str());
                self.push(Diagnostic::at("preview.invalid_png", path, m.as_str()));
                proof { reveal_strlit("preview.invalid_png"); }
            },
        }
        assert(self.found() =~= start + preview_problems_of(path@, len as nat, crate::preview::res_view(inspected)));
        self.stage = CheckStage::WorkshopFile;
    }

    /// Checks the preview image from its bytes; `None` where it could not
    /// be read, which records nothing.
    pub fn record_preview(&mut self, path: &str, data: Option<&[u8]>)
        requires
            old(self).stage() == CheckStage::Preview,
        ensures
            final(self).moved_to(old(self), CheckStage::WorkshopFile),
            final(self).found() == old(self).found() + match data {
                Some(d) => if old(self).for_workshop() {
                    preview_problems_of(path@, d@.len(), crate::preview::inspected(d@))
                } else {
                    seq![]
                },
                None => seq![],
            },
    {
        match data {
            Some(d) => {
                let inspected = crate::preview::inspect(d);
                self.record_preview_inspection(path, d.len(), inspected);
            },
            None => {
                assert(old(self).found() + seq![] == old(self).found());
                self.stage = CheckStage::WorkshopFile;
            },
        }
    }

    /// Validates the Workshop metadata file from its text (or the message
    /// of the failure to read it); `None` where the file is absent.
    pub fn record_workshop(&mut self, path: &str, source: Option<Result<String, String>>)
        requires
            old(self).stage() == CheckStage::WorkshopFile,
        ensures
            final(self).moved_to(old(self), CheckStage::SourceLayout),
            final(self).found() == old(self).found() + if old(self).for_workshop() {
                match source {
                    Some(Err(e)) => seq![at("workshop.unreadable"@, path@, e@)],
                    Some(Ok(s)) => crate::workshop_meta::workshop_problems(s@).map_values(
                        |p: (Seq<char>, Seq<char>)| at(p.0, path@, p.1),
                    ),
                    None => seq![],
                }
            } else {
                seq![]
            },
    {
        if !self.workshop {
            assert(old(self).found() + seq![] == old(self).found());
            self.stage = CheckStage::SourceLayout;
            return;
        }
        match source {
            Some(Err(e)) => {
                self.push(Diagnostic::at("workshop.unreadable", path, e.as_str()));
                proof { reveal_strlit("workshop.unreadable"); }
                assert(self.found() =~= old(self).found() + seq![at("workshop.unreadable"@, path@, e@)]);
            },
            Some(Ok(s)) => {
                let mut found = crate::workshop_meta::validate(path, s.as_str());
                let ghost f = found@;
                proof {
                    let ps = crate::workshop_meta::workshop_problems(s@);
                    assert(diags_view(f) =~= ps.map_values(|p: (Seq<char>, Seq<char>)| at(p.0, path@, p.1))) by {
                        assert forall|i: int| 0 <= i < f.len() implies #[trigger] diags_view(f)[i]
                            == ps.map_values(|p: (Seq<char>, Seq<char>)| at(p.0, path@, p.1))[i] by {
                            assert(f.map_values(|d: Diagnostic| crate::workshop_meta::problem_of(d))[i] == ps[i]);
                            assert(f[i].path matches Some(p) && p@ == path@);
                        }
                    }
                }
                self.problems.append(&mut found);
                assert(self.problems@ =~= old(self).problems@ + f);
                assert(self.found() =~= old(self).found() + diags_view(f));
            },
            None => {
                assert(old(self).found() + seq![] == old(self).found());
            },
        }
        self.stage = CheckStage::SourceLayout;
    }

    /// Records Lua placed in the generated `media/lua` tree of the sources.
    pub fn record_source_layout(&mut self, reserved_path: &str, exists: bool)
        requires
            old(self).stage() == CheckStage::SourceLayout,
        ensures
            final(self).moved_to(old(self), CheckStage::Translations),
            final(self).found() == old(self).found() + (if exists {
                seq![at("source.layout.reserved"@, reserved_path@, "place Lua under src/client, src/shared, or src/server"@)]
            } else {
                seq![]
            }),
    {
        if exists {
            self.push(Diagnostic::at("source.layout.reserved", reserved_path, "place Lua under src/client, src/shared, or src/server"));
            proof {
                reveal_strlit("source.layout.reserved");
                reveal_strlit("place Lua under src/client, src/shared, or src/server");
            }
            assert(self.found() == old(self).found() + seq![at("source.layout.reserved"@, reserved_path@, "place Lua under src/client, src/shared, or src/server"@)]);
        } else {
            assert(old(self).found() + seq![] == old(self).found());
        }
        self.stage = CheckStage::Translations;
    }

    /// Records one translation file of the sources, given its text (or the
    /// message of the failure to read it): it must parse as JSON.
    pub fn record_translation(&mut self, path: &str, source: Result<String, String>)
        requires
            old(self).stage() == CheckStage::Translations,
        ensures
            final(self).moved_to(old(self), CheckStage::Translations),
            final(self).found() == old(self).found() + (if source matches Ok(s) && json_parses(s@) {
                seq![]
            } else {
                seq![at("translation.invalid_json"@, path@, "translation must be a valid JSON object"@)]
            }),
    {
        let ok = match &source {
            Ok(s) => parses_as_json(s.as_str()),
            Err(_) => false,
        };
        if ok {
            assert(old(self).found() + seq![] == old(self).found());
        } else {
            self.push(Diagnostic::at("translation.invalid_json", path, "translation must be a valid JSON object"));
            proof {
                reveal_strlit("translation.invalid_json");
                reveal_strlit("translation must be a valid JSON object");
            }
            assert(self.found() == old(self).found() + seq![at("translation.invalid_json"@, path@, "translation must be a valid JSON object"@)]);
        }
    }

    /// Records a failure to walk the sources for translation files.
    pub fn record_translation_walk_failure(&mut self, message: &str)
        requires
            old(self).stage() == CheckStage::Translations,
        ensures
            final(self).moved_to(old(self), CheckStage::Translations),
            final(self).found() == old(self).found().push(
                plain("translation.walk.failed"@, "could not inspect translations: "@ + message@),
            ),
    {
        let mut m = String::new();
        push_str(&mut m, "could not inspect translations: ");
        push_str(&mut m, message);
        self.push(Diagnostic::new("translation.walk.failed", m.as_str()));
        proof { reveal_strlit("translation.walk.failed"); }
    }

    /// Ends the walk for translation files; the release includes are owed
    /// next.
    pub fn end_translations(&mut self)
        requires
            old(self).stage() == CheckStage::Translations,
        ensures
            final(self).moved_to(old(self), CheckStage::ReleaseIncludes),
            final(self).found() == old(self).found(),
    {
        self.stage = CheckStage::ReleaseIncludes;
    }

    /// Records the problems of one release include (configured as
    /// `included`, resolved at `path`) and claims its package destination.
    pub fn record_release_include(
        &mut self,
        table: &mut Vec<(String, String)>,
        path: &str,
        included: &str,
        file_name: Option<&str>,
        is_file: bool,
    )
        requires
            old(self).stage() == CheckStage::ReleaseIncludes,
            old(self).includes_recorded() < old(self).includes_owed(),
        ensures
            final(self).keeps_settings(old(self)),
            final(self).stage() == CheckStage::ReleaseIncludes,
            final(self).builds_recorded() == old(self).builds_recorded(),
            final(self).includes_recorded() == old(self).includes_recorded() + 1,
            final(self).found() == old(self).found() + if old(self).for_workshop() {
                release_problems_of(
                    table_view(old(table)@),
                    path@,
                    included@,
                    match file_name {
                        Some(f) => Some(f@),
                        None => None,
                    },
                    is_file,
                )
            } else {
                seq![]
            },
            final(self).read() == old(self).read(),
            table_view(final(table)@) == match file_name {
                Some(f) => if old(self).for_workshop() {
                    table_view(old(table)@).push((release_destination_of(f@), included@))
                } else {
                    table_view(old(table)@)
                },
                None => table_view(old(table)@),
            },
    {
        if !self.workshop {
            assert(old(self).found() + seq![] == old(self).found());
            self.includes_done = self.includes_done + 1;
            return;
        }
        let ghost start = self.found();
        let ghost t0 = table_view(table@);
        if !is_file {
            self.push(Diagnostic::at("release.include.missing", path, "release file is missing"));
            proof {
                reveal_strlit("release.include.missing");
                reveal_strlit("release file is missing");
            }
        }
        let ghost mid = self.found();
        match file_name {
            None => {},
            Some(f) => {
                let dest = release_destination(f);
                let previous = lookup_destination(table, dest.as_str());
                match previous {
                    Some(prev) => {
                        let mut m = String::new();
                        push_str(&mut m, "release include ");
                        push_str(&mut m, included);
                        push_str(&mut m, " conflicts with ");
                        push_str(&mut m, prev.as_str());
                        push_str(&mut m, " in the Workshop package");
                        self.push(Diagnostic::at("release.include.collision", path, m.as_str()));
                        proof { reveal_strlit("release.include.collision"); }
                    },
                    None => {},
                }
                let ghost tb = table_view(table@);
                table.push((dest, included.to_owned()));
                assert(table_view(table@) =~= tb.push((release_destination_of(f@), included@)));
            },
        }
        assert(self.found() =~= start + release_problems_of(t0, path@, included@, match file_name {
            Some(f) => Some(f@),
            None => None,
        }, is_file));
        self.includes_done = self.includes_done + 1;
    }

    /// Ends the checks once every owed check is recorded: the first build's
    /// metadata when nothing was found, otherwise a validation error listing
    /// every problem.
    pub fn finish(self) -> (r: Result<ModMetadata, Error>)
        requires
            self.stage() == CheckStage::ReleaseIncludes,
            self.includes_recorded() == self.includes_owed(),
        ensures
            self.found().len() > 0 ==> (r matches Err(e) && e.kind == ErrorKind::Validation
                && e.message@ == join_lines(view_texts(self.found()))),
            self.found().len() == 0 && self.read().len() == 0 ==> (r matches Err(e) && e.kind == ErrorKind::Validation
                && e.message@ == "no mod metadata was found"@),
            self.found().len() == 0 && self.read().len() > 0 ==> (r matches Ok(m) && metadata_view(m) == self.read()[0]),
    {
        assert(diagnostic_texts(self.problems@) =~= view_texts(self.found()));
        if self.problems.len() > 0 {
            return Err(Error::validation_diagnostics(&self.problems));
        }
        let mut metadata = self.metadata;
        if metadata.len() == 0 {
            return Err(Error::validation("no mod metadata was found"));
        }
        let first = metadata.swap_remove(0);
        Ok(first)
    }
}

} // verus!
