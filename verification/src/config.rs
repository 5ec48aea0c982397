//! Project manifests and machine-specific user defaults, as plain values.
//!
//! Reading and writing TOML is the caller's; these types hold what the
//! library reads, with their defaults and rules.

use vstd::prelude::*;

use crate::error::Error;
use crate::text::{all_white, fmt_u128, is_blank, is_control, push_str};

verus! {

/// File name that identifies a project root.
pub const MANIFEST_NAME: &'static str = "knoxmancer.toml";

/// Manifest format understood by this library.
pub const MANIFEST_VERSION: u32 = 1;

/// Project Zomboid build configuration.
#[derive(Debug, Clone)]
pub struct ProjectConfig {
    /// Project Zomboid build directories generated in artifacts.
    pub builds: Vec<String>,
}

/// Project-relative filesystem layout.
#[derive(Debug, Clone)]
pub struct PathsConfig {
    /// Directory containing game-build source trees.
    pub source: String,
    /// Directory containing Workshop metadata and assets.
    pub public: String,
    /// Directory receiving generated artifacts.
    pub output: String,
}

/// Files added to downloadable mod packages.
#[derive(Debug, Clone)]
pub struct PackageConfig {
    /// Project-relative files copied into the downloadable mod root.
    pub included: Vec<String>,
}

/// Complete project manifest.
#[derive(Debug, Clone)]
pub struct Config {
    /// Manifest format version.
    pub manifest_version: u32,
    /// Supported Project Zomboid builds.
    pub project: ProjectConfig,
    /// Project-relative source, public, and output directories.
    pub paths: PathsConfig,
    /// Files added to the downloadable mod package.
    pub package: PackageConfig,
}

impl Default for ProjectConfig {
    fn default() -> (r: Self)
        ensures
            r.builds@.len() == 1,
            r.builds@[0]@ == "42"@,
    {
        let mut builds: Vec<String> = Vec::new();
        builds.push("42".to_owned());
        ProjectConfig { builds }
    }
}

impl Default for PathsConfig {
    fn default() -> (r: Self)
        ensures
            r.source@ == "src"@,
            r.public@ == "public"@,
            r.output@ == "dist"@,
    {
        PathsConfig { source: "src".to_owned(), public: "public".to_owned(), output: "dist".to_owned() }
    }
}

impl Default for PackageConfig {
    fn default() -> (r: Self)
        ensures
            r.included@.len() == 0,
    {
        PackageConfig { included: Vec::new() }
    }
}

impl Default for Config {
    fn default() -> (r: Self)
        ensures
            r.manifest_version == MANIFEST_VERSION,
            r.project.builds@.len() == 1,
            r.project.builds@[0]@ == "42"@,
            r.paths.source@ == "src"@,
            r.paths.public@ == "public"@,
            r.paths.output@ == "dist"@,
            r.package.included@.len() == 0,
    {
        Config {
            manifest_version: MANIFEST_VERSION,
            project: ProjectConfig::default(),
            paths: PathsConfig::default(),
            package: PackageConfig::default(),
        }
    }
}

/// Loaded manifest paired with its project root.
#[derive(Debug, Clone)]
pub struct Project {
    /// Directory containing the manifest.
    pub root: String,
    /// Manifest configuration.
    pub config: Config,
}

impl Project {
    /// Accepts a parsed manifest whose format version this library
    /// understands.
    pub fn from_config(root: String, config: Config) -> (r: Result<Project, Error>)
        ensures
            config.manifest_version == MANIFEST_VERSION ==> (r matches Ok(p) && p.root == root && p.config == config),
            config.manifest_version != MANIFEST_VERSION ==> (r matches Err(e) && e.kind == crate::error::ErrorKind::Project
                && e.message@ == "unsupported manifest version "@ + crate::text::decimal(config.manifest_version as nat) + "; expected 1"@),
    {
        if config.manifest_version != MANIFEST_VERSION {
            let mut m = String::new();
            push_str(&mut m, "unsupported manifest version ");
            let v = fmt_u128(config.manifest_version as u128);
            push_str(&mut m, v.as_str());
            push_str(&mut m, "; expected 1");
            return Err(Error::project(m.as_str()));
        }
        Ok(Project { root, config })
    }
}

/// User defaults shared by projects on one machine.
#[derive(Debug, Clone)]
pub struct UserConfig {
    /// Default author used by newly scaffolded projects.
    pub author: Option<String>,
    /// Default local Project Zomboid mods directory.
    pub mods_root: Option<String>,
    /// Default Project Zomboid Workshop projects directory.
    pub workshop_root: Option<String>,
    /// Default Steam installation directory.
    pub steam_root: Option<String>,
}

/// Whether a path is absolute: it starts at the filesystem root.
pub open spec fn absolute(p: Seq<char>) -> bool {
    p.len() > 0 && p[0] == '/'
}

/// Why user defaults are refused, if they are.
pub open spec fn user_config_problem(author: Option<Seq<char>>, mods: Option<Seq<char>>, workshop: Option<Seq<char>>) -> Option<Seq<char>> {
    if author matches Some(a) && all_white(a) {
        Some("default author must not be empty"@)
    } else if author matches Some(a) && exists|i: int| 0 <= i < a.len() && is_control(#[trigger] a[i]) {
        Some("default author must not contain control characters"@)
    } else if mods matches Some(m) && !absolute(m) {
        Some("default mods root must be an absolute path"@)
    } else if workshop matches Some(w) && !absolute(w) {
        Some("default Workshop root must be an absolute path"@)
    } else {
        None
    }
}

/// An optional string as plain values.
pub open spec fn opt_str(o: Option<String>) -> Option<Seq<char>> {
    match o {
        Some(s) => Some(s@),
        None => None,
    }
}

fn is_absolute(p: &str) -> (r: bool)
    ensures
        r == absolute(p@),
{
    let v = crate::text::chars_of(p);
    v.len() > 0 && v[0] == '/'
}

impl UserConfig {
    /// Empty defaults.
    pub fn new() -> (r: Self)
        ensures
            r.author is None,
            r.mods_root is None,
            r.workshop_root is None,
            r.steam_root is None,
    {
        UserConfig { author: None, mods_root: None, workshop_root: None, steam_root: None }
    }

    /// Validates values before they affect scaffolding or game-facing paths.
    pub fn validate(&self) -> (r: Result<(), Error>)
        ensures
            match user_config_problem(opt_str(self.author), opt_str(self.mods_root), opt_str(self.workshop_root)) {
                None => r is Ok,
                Some(m) => r matches Err(e) && e.kind == crate::error::ErrorKind::Project && e.message@ == m,
            },
    {
        proof {
            reveal_strlit("default author must not be empty");
            reveal_strlit("default author must not contain control characters");
            reveal_strlit("default mods root must be an absolute path");
            reveal_strlit("default Workshop root must be an absolute path");
        }
        match &self.author {
            Some(a) => {
                let v = crate::text::chars_of(a.as_str());
                if is_blank(&v, 0, v.len()) {
                    assert(v@.subrange(0, v.len() as int) == v@);
                    return Err(Error::project("default author must not be empty"));
                }
                assert(v@.subrange(0, v.len() as int) == v@);
                let mut i: usize = 0;
                while i < v.len()
                    invariant
                        i <= v.len(),
                        v@ == a@,
                        opt_str(self.author) == Some(a@),
                        !all_white(v@),
                        forall|j: int| 0 <= j < i ==> !is_control(#[trigger] v@[j]),
                    decreases v.len() - i,
                {
                    if crate::text::char_is_control(v[i]) {
                        assert(is_control(a@[i as int]));
                        return Err(Error::project("default author must not contain control characters"));
                    }
                    i = i + 1;
                }
                assert(!all_white(a@));
                assert(!exists|j: int| 0 <= j < a@.len() && is_control(#[trigger] a@[j]));
            },
            None => {},
        }
        assert(user_config_problem(opt_str(self.author), opt_str(self.mods_root), opt_str(self.workshop_root))
            == user_config_problem(None, opt_str(self.mods_root), opt_str(self.workshop_root)));
        match &self.mods_root {
            Some(m) => {
                if !is_absolute(m.as_str()) {
                    return Err(Error::project("default mods root must be an absolute path"));
                }
            },
            None => {},
        }
        match &self.workshop_root {
            Some(w) => {
                if !is_absolute(w.as_str()) {
                    return Err(Error::project("default Workshop root must be an absolute path"));
                }
            },
            None => {},
        }
        Ok(())
    }
}

} // verus!
