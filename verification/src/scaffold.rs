//! New-project generation and existing-project adoption: identities, the
//! files a new project holds, and the manifest an adopted project gets.

use vstd::prelude::*;

use crate::config::{Config, PackageConfig};
use crate::error::{Error, ErrorKind};
use crate::naming::{display_name, display_name_of, mod_id, mod_id_of, valid_mod_id, validate_id, validate_text};
use crate::paths::strs;
use crate::text::{push_str, trim};

verus! {

/// Version of a newly created project.
pub const INITIAL_VERSION: &'static str = "0.1.0";

/// Options of a new project.
#[derive(Debug)]
pub struct NewProjectOptions {
    /// Destination directory.
    pub directory: String,
    /// Human-readable mod name; derived from the directory when omitted.
    pub name: Option<String>,
    /// Game-facing mod identifier; derived from the directory when omitted.
    pub id: Option<String>,
    /// Mod author; the caller's default when omitted.
    pub author: Option<String>,
    /// Project Zomboid build directory.
    pub build: String,
}

/// A created project.
#[derive(Debug)]
pub struct NewProjectResult {
    /// Project root.
    pub root: String,
    /// Human-readable mod name.
    pub name: String,
    /// Project Zomboid build directory.
    pub build: String,
}

/// The identity of a new project: name, ID and author.
pub open spec fn identity_of(slug: Seq<char>, name: Option<Seq<char>>, id: Option<Seq<char>>, author: Option<Seq<char>>, fallback: Seq<char>) -> (Seq<char>, Seq<char>, Seq<char>) {
    (
        match name {
            Some(n) => n,
            None => display_name_of(slug),
        },
        match id {
            Some(i) => i,
            None => mod_id_of(slug),
        },
        match author {
            Some(a) => a,
            None => fallback,
        },
    )
}

/// Whether a field value is usable in metadata: not blank, no control
/// characters.
pub open spec fn usable_text(v: Seq<char>) -> bool {
    trim(v).len() > 0 && !crate::naming::has_control(v)
}

/// Why a metadata field value is refused.
pub open spec fn text_error(field: Seq<char>, v: Seq<char>) -> Seq<char> {
    if trim(v).len() == 0 {
        field + " must not be empty"@
    } else {
        field + " must not contain control characters"@
    }
}

/// Why a new project's identity is refused, checked in order: the ID, the
/// name, then the author.
pub open spec fn identity_error(name: Seq<char>, id: Seq<char>, author: Seq<char>) -> Option<Seq<char>> {
    if !valid_mod_id(id) {
        Some("mod ID must contain only ASCII letters, digits, and underscores"@)
    } else if !usable_text(name) {
        Some(text_error("mod name"@, name))
    } else if !usable_text(author) {
        Some(text_error("author"@, author))
    } else {
        None
    }
}

/// An optional string as plain values.
pub open spec fn opt(o: Option<String>) -> Option<Seq<char>> {
    match o {
        Some(s) => Some(s@),
        None => None,
    }
}

/// Decides the identity of a new project from its directory name `slug`,
/// the options, and the author to use when none is given.
pub fn project_identity(slug: &str, options: &NewProjectOptions, fallback_author: String) -> (r: Result<(String, String, String), Error>)
    ensures
        ({
            let (n, i, a) = identity_of(slug@, opt(options.name), opt(options.id), opt(options.author), fallback_author@);
            match identity_error(n, i, a) {
                None => r matches Ok(t) && t.0@ == n && t.1@ == i && t.2@ == a,
                Some(m) => r matches Err(e) && e.kind == ErrorKind::Project && e.message@ == m,
            }
        }),
{
    let name = match &options.name {
        Some(n) => n.clone(),
        None => display_name(slug),
    };
    let id = match &options.id {
        Some(i) => i.clone(),
        None => mod_id(slug),
    };
    match validate_id(id.as_str()) {
        Ok(()) => {},
        Err(e) => return Err(e),
    }
    let author = match &options.author {
        Some(a) => a.clone(),
        None => fallback_author,
    };
    match validate_text("mod name", name.as_str()) {
        Ok(()) => {},
        Err(e) => return Err(e),
    }
    match validate_text("author", author.as_str()) {
        Ok(()) => {},
        Err(e) => return Err(e),
    }
    Ok((name, id, author))
}

/// The marker values of the scaffold templates.
pub open spec fn values_of(name: Seq<char>, id: Seq<char>, author: Seq<char>, build: Seq<char>) -> Seq<(Seq<char>, Seq<char>)> {
    seq![("name"@, name), ("id"@, id), ("version"@, "0.1.0"@), ("author"@, author), ("build"@, build)]
}

/// The marker values of the scaffold templates.
pub fn scaffold_values(name: &str, id: &str, author: &str, build: &str) -> (r: Vec<(String, String)>)
    ensures
        r@.map_values(|p: (String, String)| (p.0@, p.1@)) == values_of(name@, id@, author@, build@),
{
    let mut r: Vec<(String, String)> = Vec::new();
    r.push(("name".to_owned(), name.to_owned()));
    r.push(("id".to_owned(), id.to_owned()));
    r.push(("version".to_owned(), INITIAL_VERSION.to_owned()));
    r.push(("author".to_owned(), author.to_owned()));
    r.push(("build".to_owned(), build.to_owned()));
    assert(r@.map_values(|p: (String, String)| (p.0@, p.1@)) =~= values_of(name@, id@, author@, build@));
    r
}

/// Where a new project's build metadata is written, relative to its root:
/// directly beneath the source directory.
pub const SCAFFOLD_METADATA: &'static str = "src/mod.info";

/// The directories of a new project, relative to its root: the Lua scopes
/// and media directly beneath `src`, then the public assets, tests and CI.
pub open spec fn scaffold_directories_of() -> Seq<Seq<char>> {
    seq![
        "src/client"@,
        "src/server"@,
        "src/shared"@,
        "src/media/scripts"@,
        "src/media/textures"@,
        "public"@,
        "tests"@,
        ".github/workflows"@,
    ]
}

/// The empty placeholder files that keep the new source directories in
/// version control, relative to the root.
pub open spec fn scaffold_keep_files_of() -> Seq<Seq<char>> {
    seq![
        "src/client/.gitkeep"@,
        "src/server/.gitkeep"@,
        "src/shared/.gitkeep"@,
        "src/media/scripts/.gitkeep"@,
        "src/media/textures/.gitkeep"@,
    ]
}

/// The directories of a new project, relative to its root.
pub fn scaffold_directories() -> (r: Vec<String>)
    ensures
        strs(r@) == scaffold_directories_of(),
{
    let mut r: Vec<String> = Vec::new();
    r.push("src/client".to_owned());
    r.push("src/server".to_owned());
    r.push("src/shared".to_owned());
    r.push("src/media/scripts".to_owned());
    r.push("src/media/textures".to_owned());
    r.push("public".to_owned());
    r.push("tests".to_owned());
    r.push(".github/workflows".to_owned());
    assert(strs(r@) =~= scaffold_directories_of());
    r
}

/// The empty placeholder files of a new project, relative to its root.
pub fn scaffold_keep_files() -> (r: Vec<String>)
    ensures
        strs(r@) == scaffold_keep_files_of(),
{
    let mut r: Vec<String> = Vec::new();
    r.push("src/client/.gitkeep".to_owned());
    r.push("src/server/.gitkeep".to_owned());
    r.push("src/shared/.gitkeep".to_owned());
    r.push("src/media/scripts/.gitkeep".to_owned());
    r.push("src/media/textures/.gitkeep".to_owned());
    assert(strs(r@) =~= scaffold_keep_files_of());
    r
}

/// The source directory an existing project is adopted with: `src` where
/// metadata sits under it, the root where only `42/mod.info` exists.
pub open spec fn adopted_source_of(has_src_metadata: bool, has_nested_metadata: bool, has_flat_metadata: bool) -> Option<Seq<char>> {
    if has_src_metadata || has_nested_metadata {
        Some("src"@)
    } else if has_flat_metadata {
        Some("."@)
    } else {
        None
    }
}

/// Whether an existing manifest stops an initialization: it does unless
/// replacement is forced.
pub open spec fn replacement_refused(exists: bool, force: bool) -> bool {
    exists && !force
}

/// The source directory of a project being adopted: `src` when its build
/// metadata is at `src/mod.info` (the conventional layout) or at
/// `src/42/mod.info`, the root when it is at `42/mod.info`.
pub fn adopted_source(has_src_metadata: bool, has_nested_metadata: bool, has_flat_metadata: bool) -> (r: Result<String, Error>)
    ensures
        match adopted_source_of(has_src_metadata, has_nested_metadata, has_flat_metadata) {
            Some(d) => r matches Ok(s) && s@ == d,
            None => r matches Err(e) && e.kind == ErrorKind::Project
                && e.message@ == "could not find src/mod.info, src/42/mod.info or 42/mod.info in the project"@,
        },
{
    if has_src_metadata || has_nested_metadata {
        Ok("src".to_owned())
    } else if has_flat_metadata {
        Ok(".".to_owned())
    } else {
        Err(Error::project("could not find src/mod.info, src/42/mod.info or 42/mod.info in the project"))
    }
}

/// Refuses to replace an existing manifest unless forced.
pub fn check_manifest_replacement(manifest_path: &str, exists: bool, force: bool) -> (r: Result<(), Error>)
    ensures
        replacement_refused(exists, force) ==> (r matches Err(e) && e.kind == ErrorKind::Project
            && e.message@ == manifest_path@ + " already exists; pass --force to replace it"@),
        !replacement_refused(exists, force) ==> r is Ok,
{
    if exists && !force {
        let mut m = String::new();
        push_str(&mut m, manifest_path);
        push_str(&mut m, " already exists; pass --force to replace it");
        return Err(Error::project(m.as_str()));
    }
    Ok(())
}

/// The manifest of an adopted project: default settings with its source
/// directory, packaging whichever of `CHANGELOG.md` and `LICENSE` exist.
pub fn adopted_config(source: String, has_changelog: bool, has_license: bool) -> (r: Config)
    ensures
        r.manifest_version == crate::config::MANIFEST_VERSION,
        r.paths.source@ == source@,
        r.paths.public@ == "public"@,
        r.paths.output@ == "dist"@,
        r.project.builds@.len() == 1 && r.project.builds@[0]@ == "42"@,
        strs(r.package.included@) == (if has_changelog { seq!["CHANGELOG.md"@] } else { seq![] }) + (if has_license {
            seq!["LICENSE"@]
        } else {
            seq![]
        }),
{
    let mut config = Config::default();
    config.paths.source = source;
    let mut included: Vec<String> = Vec::new();
    if has_changelog {
        included.push("CHANGELOG.md".to_owned());
    }
    if has_license {
        included.push("LICENSE".to_owned());
    }
    assert(strs(included@) =~= (if has_changelog { seq!["CHANGELOG.md"@] } else { seq![] }) + (if has_license {
        seq!["LICENSE"@]
    } else {
        seq![]
    }));
    config.package = PackageConfig { included };
    config
}

/// The manifest of a new project: default settings, packaging no extra
/// files.
pub fn scaffold_config() -> (r: Config)
    ensures
        r.manifest_version == crate::config::MANIFEST_VERSION,
        r.paths.source@ == "src"@,
        r.paths.public@ == "public"@,
        r.paths.output@ == "dist"@,
        r.project.builds@.len() == 1 && r.project.builds@[0]@ == "42"@,
        r.package.included@.len() == 0,
{
    adopted_config("src".to_owned(), false, false)
}

/// Initializing a project twice: the first run, with no manifest yet, goes
/// ahead; once its manifest exists a second run is refused unless forced;
/// and a forced run adopts the same source directory as the first, since the
/// project's metadata files are unchanged.
pub proof fn lemma_repeated_init(has_src_metadata: bool, has_nested_metadata: bool, has_flat_metadata: bool, force: bool)
    ensures
        !replacement_refused(false, force),
        replacement_refused(true, force) <==> !force,
        adopted_source_of(has_src_metadata, has_nested_metadata, has_flat_metadata) is Some
            <==> has_src_metadata || has_nested_metadata || has_flat_metadata,
        has_flat_metadata && !has_src_metadata && !has_nested_metadata
            ==> adopted_source_of(has_src_metadata, has_nested_metadata, has_flat_metadata) == Some("."@),
{
}

} // verus!
