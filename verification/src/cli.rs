//! The parsed command line, as plain values.

use vstd::prelude::*;

use crate::output::{ColorChoice, OutputFormat, OutputOptions};

verus! {

/// Parsed command line.
#[derive(Debug)]
pub struct Cli {
    /// Starts project discovery from this path instead of the current directory.
    pub project: Option<String>,
    /// Suppresses non-error output.
    pub quiet: bool,
    /// Controls ANSI color in human-readable diagnostics.
    pub color: ColorChoice,
    /// Selects human-readable output or newline-delimited JSON events.
    pub format: OutputFormat,
    /// Operation selected by the user.
    pub command: Command,
}

impl Cli {
    /// Extracts the global output controls used by the reporter.
    pub fn output_options(&self) -> (r: OutputOptions)
        ensures
            r.quiet == self.quiet,
            r.color == self.color,
            r.format == self.format,
    {
        OutputOptions { quiet: self.quiet, color: self.color, format: self.format }
    }
}

/// Supported operations.
#[derive(Debug)]
pub enum Command {
    /// Creates a complete mod project.
    New(NewArgs),
    /// Adopts an existing mod project without rewriting game metadata.
    Init(InitArgs),
    /// Reports resolved artifact, installation, and staging paths.
    Paths(PathsArgs),
    /// Finds matching local, staged, and subscribed copies.
    Copies(CopiesArgs),
    /// Validates the project.
    Check(CheckArgs),
    /// Creates a playable artifact under the output directory.
    Build(BuildArgs),
    /// Builds and installs the mod for local play.
    Install(InstallArgs),
    /// Creates a verified Workshop upload project under the output directory.
    Package(PackageArgs),
    /// Packages and stages the mod for the game's Workshop uploader.
    Stage(StageArgs),
    /// Removes generated artifacts.
    Clean(CleanArgs),
    /// Reads or updates machine-specific user defaults.
    Config(ConfigArgs),
    /// Generates a shell completion script.
    Completions(CompletionsArgs),
    /// Checks project and environment readiness without writing artifacts.
    Doctor(DoctorArgs),
    /// Opens a resolved directory in the file browser.
    Open(OpenArgs),
}

/// Arguments for creating a new mod project.
#[derive(Debug)]
pub struct NewArgs {
    /// Empty destination directory to create or populate.
    pub directory: String,
    /// Human-readable mod name; derived from the directory when omitted.
    pub name: Option<String>,
    /// Game-facing mod identifier; derived from the directory when omitted.
    pub id: Option<String>,
    /// Mod author.
    pub author: Option<String>,
}

/// Arguments for adopting an existing mod project.
#[derive(Debug)]
pub struct InitArgs {
    /// Replaces an existing manifest.
    pub force: bool,
}

/// Arguments for resolved project paths.
#[derive(Debug)]
pub struct PathsArgs {}

/// Arguments for installed-copy discovery.
#[derive(Debug)]
pub struct CopiesArgs {}

/// Arguments for project validation.
#[derive(Debug)]
pub struct CheckArgs {
    /// Also validates Workshop metadata, assets, and package inputs.
    pub workshop: bool,
}

/// Arguments for artifact construction.
#[derive(Debug)]
pub struct BuildArgs {}

/// Arguments for local-play mod installation.
#[derive(Debug)]
pub struct InstallArgs {
    /// Overrides the default mods root.
    pub root: Option<String>,
    /// Synchronizes an existing copy in place.
    pub live: bool,
}

/// Arguments for Workshop project construction.
#[derive(Debug)]
pub struct PackageArgs {}

/// Arguments for staging a Workshop project for the game's uploader.
#[derive(Debug)]
pub struct StageArgs {
    /// Overrides the default Workshop projects directory.
    pub root: Option<String>,
}

/// Arguments for generated-artifact cleanup.
#[derive(Debug)]
pub struct CleanArgs {}

/// Arguments for machine-specific user defaults.
#[derive(Debug)]
pub struct ConfigArgs {
    /// Configuration operation to perform.
    pub command: ConfigCommand,
}

/// Supported user-configuration operations.
#[derive(Debug)]
pub enum ConfigCommand {
    /// Displays the configuration file and effective defaults.
    Show,
    /// Assigns a user default.
    Assign {
        /// Setting to assign.
        key: ConfigKey,
        /// New author name or absolute directory path.
        value: String,
    },
    /// Removes a user default.
    Unset {
        /// Setting to remove.
        key: ConfigKey,
    },
}

/// Machine-specific setting names.
#[derive(Debug, Clone, Copy, PartialEq, Eq, Structural)]
pub enum ConfigKey {
    /// Default author of new projects.
    Author,
    /// Default local mods directory.
    ModsRoot,
    /// Default Workshop projects directory.
    WorkshopRoot,
    /// Default Steam installation directory.
    SteamRoot,
}

/// Arguments for shell completion generation.
#[derive(Debug)]
pub struct CompletionsArgs {
    /// Shell whose completion script should be generated.
    pub shell: CompletionShell,
    /// Command name the script completes.
    pub bin: String,
    /// File receiving the script instead of standard output.
    pub output: Option<String>,
}

/// Shells supported by completion generation.
#[derive(Debug, Clone, Copy, PartialEq, Eq, Structural)]
pub enum CompletionShell {
    /// Bourne Again Shell.
    Bash,
    /// Elvish shell.
    Elvish,
    /// Friendly Interactive Shell.
    Fish,
    /// Microsoft PowerShell.
    Powershell,
    /// Z shell.
    Zsh,
}

/// Arguments for read-only environment and project diagnostics.
#[derive(Debug)]
pub struct DoctorArgs {}

/// Arguments for opening a resolved directory.
#[derive(Debug)]
pub struct OpenArgs {
    /// Directory to open.
    pub target: OpenTarget,
}

/// Directories that can be opened.
#[derive(Debug, Clone, Copy, PartialEq, Eq, Structural)]
pub enum OpenTarget {
    /// The development artifact.
    Artifact,
    /// The local installation.
    Mods,
    /// The Workshop package.
    Package,
    /// The Workshop staging directory.
    Workshop,
}

/// The label and resolved path an open target shows.
pub open spec fn open_label(t: OpenTarget) -> Seq<char> {
    match t {
        OpenTarget::Artifact => "development artifact"@,
        OpenTarget::Mods => "local installation"@,
        OpenTarget::Package => "Workshop package"@,
        OpenTarget::Workshop => "Workshop staging"@,
    }
}

impl OpenTarget {
    /// The human-readable name of the directory.
    pub fn label(self) -> (r: &'static str)
        ensures
            r@ == open_label(self),
    {
        match self {
            OpenTarget::Artifact => "development artifact",
            OpenTarget::Mods => "local installation",
            OpenTarget::Package => "Workshop package",
            OpenTarget::Workshop => "Workshop staging",
        }
    }
}

} // verus!
