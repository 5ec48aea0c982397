use knoxmancer::artifact::{
    artifact_destination, generated_path, is_direct_child, package_layout, workshop_package_path, minify_arguments, minifier_no_output, replace_str, source_copies,
    writes_output, BuildArtifact, BuildProfile, CopyKind, ReleaseArtifact,
};
use knoxmancer::config::{Config, Project, UserConfig};
use knoxmancer::copies::{
    check_staged_copy, check_staging_canonical, check_staging_removal, field, has_stale_staging, matching_copy, normalize_steam_root, order_copies, quoted_values, vdf_library_paths, CopySource,
    InstalledCopy,
};
use knoxmancer::environment::{command_line, directory_line, zomboid_root};
use knoxmancer::layout::{check_confined, is_directly_inside, is_within, relative, ProjectLayout};
use knoxmancer::live::{check_installed_id, check_live_canonical, check_live_destination};
use knoxmancer::metadata::read;
use knoxmancer::replace::{after_failed_install, destination_error, finish_replacement, InstallRecovery, IoFailure};
use knoxmancer::scaffold::{
    adopted_config, adopted_source, check_manifest_replacement, scaffold_config, scaffold_directories, scaffold_keep_files,
    scaffold_values, SCAFFOLD_METADATA,
};
use knoxmancer::staging::{backup_path, staging_path};
use knoxmancer::validation::{is_translation_path, release_destination, release_table, Checks};
use knoxmancer::workshop_meta::validate;

fn project(root: &str) -> Project {
    Project { root: root.to_owned(), config: Config::default() }
}

#[test]
fn reads_mod_metadata() {
    let metadata = read("mod.info", "42", Ok("name=Example\nid=Example\nmodversion=1.2.3\n".to_owned())).unwrap();
    assert_eq!(metadata.id, "Example");
    assert_eq!(metadata.version, "1.2.3");
    assert_eq!(metadata.name, "Example");
    assert_eq!(metadata.build, "42");
}

#[test]
fn rejects_non_semantic_versions() {
    let error = read("mod.info", "42", Ok("name=Example\nid=Example\nmodversion=1.2\n".to_owned())).unwrap_err();
    assert_eq!(error.message(), "mod.info: modversion `1.2` must use MAJOR.MINOR.PATCH");
}

#[test]
fn rejects_missing_and_invalid_metadata_fields() {
    assert!(read("mod.info", "42", Err("No such file or directory".to_owned())).is_err());
    let bad_id = read("mod.info", "42", Ok("name=Example\nid=bad-id\nmodversion=1.0.0\n".to_owned())).unwrap_err();
    assert_eq!(bad_id.message(), "mod.info: id `bad-id` contains unsupported characters");
    let no_version = read("mod.info", "42", Ok("name=Example\nid=Example\n".to_owned())).unwrap_err();
    assert_eq!(no_version.message(), "mod.info: missing `modversion`");
    let later_wins = read("m", "42", Ok("name=A\nname=B\nid=X\nmodversion=1.0.0\n".to_owned())).unwrap();
    assert_eq!(later_wins.name, "B");
}

#[test]
fn accepts_valid_metadata() {
    let source = "version=1\nid=0\ntitle=Example\n{{DESCRIPTION}}\ntags=Build 42\nvisibility=unlisted\n";
    assert!(validate("workshop.txt", source).is_empty());
}

#[test]
fn reports_structural_and_field_problems() {
    let diagnostics = validate("workshop.txt", "broken\nversion=2\nid=nope\ntitle=\ntitle=again\ntags=\nvisibility=hidden\n");
    for code in [
        "workshop.line.invalid",
        "workshop.value.invalid",
        "workshop.id.invalid",
        "workshop.field.duplicate",
        "workshop.value.empty",
        "workshop.visibility.invalid",
        "workshop.description_marker.invalid",
    ] {
        assert!(diagnostics.iter().any(|diagnostic| diagnostic.code == code), "missing {code}");
    }
}

const VALID_METADATA: &str = "name=E\nid=Example\nmodversion=1.0.0\n";

/// Records the configured builds, each `42` build with valid metadata.
fn record_builds(checks: &mut Checks, builds: &[String]) {
    for build in builds {
        let read_result = if Checks::needs_metadata(build) {
            Some(read("src/mod.info", build, Ok(VALID_METADATA.to_owned())))
        } else {
            None
        };
        checks.record_build("knoxmancer.toml", build, read_result);
    }
}

/// Passes the checks after the builds up to the source layout, with the
/// given changelog and every public input present but unread.
fn through_public_inputs(checks: &mut Checks, changelog: Option<Result<String, String>>) {
    checks.record_mismatches();
    checks.record_changelog("CHANGELOG.md", changelog);
    checks.record_public_files("public", true, true, true);
    checks.record_preview("public/preview.png", None);
    checks.record_workshop("public/workshop.txt", None);
}

/// A Workshop check of one valid `42` build, at the public files.
fn at_public_files(includes: usize) -> Checks {
    let builds = vec!["42".to_owned()];
    let mut checks = Checks::new("knoxmancer.toml", &builds, includes, true);
    record_builds(&mut checks, &builds);
    checks.record_mismatches();
    checks.record_changelog("CHANGELOG.md", Some(Ok("## 1.0.0\n".to_owned())));
    checks
}

/// Ends the checks from the source layout on, with nothing found.
fn through_sources(checks: &mut Checks) {
    checks.record_source_layout("src/media/lua", false);
    checks.end_translations();
}

/// The problems of a Workshop check whose changelog reads `source`.
fn changelog_problems(source: Result<String, String>) -> Vec<String> {
    let builds = vec!["42".to_owned()];
    let mut checks = Checks::new("knoxmancer.toml", &builds, 0, true);
    record_builds(&mut checks, &builds);
    checks.record_mismatches();
    checks.record_changelog("CHANGELOG.md", Some(source));
    checks.problems().iter().map(|p| p.to_string()).collect()
}

/// The problems of a Workshop check whose preview holds `data`.
fn preview_problems(data: &[u8]) -> Vec<String> {
    let mut checks = at_public_files(0);
    checks.record_public_files("public", true, true, true);
    checks.record_preview("public/preview.png", Some(data));
    checks.problems().iter().map(|p| p.to_string()).collect()
}

#[test]
fn rejects_empty_and_unsupported_build_sets() {
    let builds = vec!["42".to_owned(), "41".to_owned()];
    let mut checks = Checks::new("knoxmancer.toml", &builds, 0, false);
    record_builds(&mut checks, &builds);
    through_public_inputs(&mut checks, None);
    through_sources(&mut checks);
    let error = checks.finish().unwrap_err();
    assert!(error.message().contains("unsupported Project Zomboid build: 41"));

    let mut empty = Checks::new("knoxmancer.toml", &Vec::new(), 0, false);
    through_public_inputs(&mut empty, None);
    through_sources(&mut empty);
    let error = empty.finish().unwrap_err();
    assert!(error.message().contains("project.builds must not be empty"));
}

#[test]
fn accumulates_cross_build_validation_problems() {
    let builds = vec!["42".to_owned(), "42".to_owned()];
    let mut checks = Checks::new("knoxmancer.toml", &builds, 0, false);
    checks.record_build("knoxmancer.toml", "42", Some(read("a", "42", Ok("name=E\nid=Example\nmodversion=1.0.0\n".to_owned()))));
    checks.record_build("knoxmancer.toml", "42", Some(read("b", "42", Ok("name=O\nid=Other\nmodversion=2.0.0\n".to_owned()))));
    through_public_inputs(&mut checks, None);
    through_sources(&mut checks);
    let error = checks.finish().unwrap_err();
    assert!(error.message().contains("uses ID Other"));
    assert!(error.message().contains("uses version 2.0.0"));
}

#[test]
fn validation_validates_changelog_failure_modes() {
    assert_eq!(changelog_problems(Err("No such file or directory".to_owned())).len(), 1);
    assert!(changelog_problems(Ok("no releases".to_owned())).iter().any(|p| p.contains("add `## 1.0.0`")));
    assert!(changelog_problems(Ok("## 0.9.0\n".to_owned())).iter().any(|p| p.contains("expected 1.0.0")));
    assert!(changelog_problems(Ok("# Changelog\n\n## 1.0.0\n\n- Note\n".to_owned())).is_empty());
}

#[test]
fn validation_validates_preview_and_release_failure_modes() {
    assert!(preview_problems(&knoxmancer::png::generate(128, 256)).iter().any(|p| p.contains("128x256")));
    assert!(preview_problems(&vec![0; 1_000_000]).iter().any(|p| p.contains("under 1000 KB")));
    assert!(preview_problems(&knoxmancer::png::generate(256, 256)).is_empty());

    let mut checks = at_public_files(2);
    checks.record_public_files("public", true, true, true);
    checks.record_preview("public/preview.png", None);
    checks.record_workshop("public/workshop.txt", None);
    through_sources(&mut checks);
    let mut table = release_table();
    checks.record_release_include(&mut table, "MISSING", "MISSING", Some("MISSING"), false);
    assert!(checks.problems().iter().any(|p| p.to_string().contains("release file is missing")));
    checks.record_release_include(&mut table, "preview.png", "preview.png", Some("preview.png"), true);
    assert!(checks.problems().iter().any(|p| p.code == "release.include.collision"
        && p.message == "release include preview.png conflicts with public/preview.png in the Workshop package"));
    assert!(checks.finish().is_err());
    assert_eq!(release_destination("LICENSE"), "mod/license");
    assert_eq!(release_destination("README.MD"), "root/readme.md");
}

#[test]
fn validates_project_files_and_environment_helpers() {
    let mut checks = at_public_files(0);
    checks.record_public_files("public", false, true, true);
    assert_eq!(checks.problems().len(), 1);
    assert_eq!(checks.problems()[0].to_string(), "[public.file.missing] public/description.md: required file is missing");
}

#[test]
fn playable_checks_leave_workshop_inputs_alone() {
    let builds = vec!["42".to_owned()];
    let mut checks = Checks::new("knoxmancer.toml", &builds, 1, false);
    record_builds(&mut checks, &builds);
    checks.record_mismatches();
    assert!(!checks.wants_changelog());
    checks.record_changelog("CHANGELOG.md", Some(Err("No such file or directory".to_owned())));
    checks.record_public_files("public", false, false, false);
    checks.record_preview("public/preview.png", Some(b"not a png"));
    checks.record_workshop("public/workshop.txt", Some(Ok("title=\n".to_owned())));
    through_sources(&mut checks);
    let mut table = release_table();
    checks.record_release_include(&mut table, "MISSING", "MISSING", Some("MISSING"), false);
    assert!(checks.problems().is_empty());
    assert_eq!(checks.finish().unwrap().id, "Example");

    let mut workshop = Checks::new("knoxmancer.toml", &builds, 0, true);
    record_builds(&mut workshop, &builds);
    workshop.record_mismatches();
    assert!(workshop.wants_changelog());
    workshop.record_changelog("CHANGELOG.md", Some(Err("No such file or directory".to_owned())));
    workshop.record_public_files("public", true, true, true);
    workshop.record_preview("public/preview.png", Some(b"not a png"));
    assert_eq!(workshop.problems().len(), 2);
    workshop.record_workshop("public/workshop.txt", None);
    through_sources(&mut workshop);
    assert!(workshop.finish().is_err());
}

#[test]
fn validates_workshop_metadata_at_its_path() {
    let mut checks = at_public_files(0);
    checks.record_public_files("public", true, true, true);
    checks.record_preview("public/preview.png", None);
    checks.record_workshop("public/workshop.txt", Some(Ok("title=\n".to_owned())));
    assert!(!checks.problems().is_empty());
    assert!(checks.problems().iter().all(|p| p.path.as_deref() == Some("public/workshop.txt")));
    assert!(checks.problems().iter().any(|p| p.code == "workshop.value.empty"));
}

#[test]
fn validates_translation_files_as_json() {
    assert!(is_translation_path("src/shared/Translate/EN/UI.json"));
    assert!(is_translation_path("Translate/EN.json"));
    assert!(!is_translation_path("src/shared/Translate/EN/UI.txt"));
    assert!(!is_translation_path("src/shared/Translate.json"));
    assert!(!is_translation_path("src/shared/Translations/EN/UI.json"));

    let builds = vec!["42".to_owned()];
    for workshop in [false, true] {
        let mut checks = Checks::new("knoxmancer.toml", &builds, 0, workshop);
        record_builds(&mut checks, &builds);
        through_public_inputs(&mut checks, Some(Ok("## 1.0.0\n".to_owned())));
        checks.record_source_layout("src/media/lua", false);
        checks.record_translation("src/shared/Translate/EN/UI.json", Ok("[]".to_owned()));
        checks.record_translation("src/shared/Translate/EN/Items.json", Ok("{\"a\": \"b\"}".to_owned()));
        assert!(checks.problems().is_empty());
        checks.record_translation("src/shared/Translate/EN/Broken.json", Ok("{".to_owned()));
        checks.record_translation("src/shared/Translate/EN/Locked.json", Err("permission denied".to_owned()));
        checks.record_translation_walk_failure("permission denied");
        let found: Vec<String> = checks.problems().iter().map(|p| p.to_string()).collect();
        assert_eq!(
            found,
            [
                "[translation.invalid_json] src/shared/Translate/EN/Broken.json: translation must be a valid JSON object",
                "[translation.invalid_json] src/shared/Translate/EN/Locked.json: translation must be a valid JSON object",
                "[translation.walk.failed] could not inspect translations: permission denied",
            ]
        );
        checks.end_translations();
        assert!(checks.finish().is_err());
    }
}

#[test]
fn rejects_game_layout_paths_inside_media() {
    let mut checks = at_public_files(0);
    checks.record_public_files("public", true, true, true);
    checks.record_preview("public/preview.png", None);
    checks.record_workshop("public/workshop.txt", None);
    checks.record_source_layout("src/media/lua", true);
    checks.end_translations();
    let error = checks.finish().unwrap_err();
    assert!(error.message().contains("src/client, src/shared, or src/server"));
}

#[test]
fn resolves_conventional_and_flat_layouts() {
    let mut value = project("/p");
    let layout = ProjectLayout::new(&value).unwrap();
    assert_eq!(layout.source_root(), "/p/src");
    assert_eq!(layout.output_root(), "/p/dist");
    value.config.paths.source = ".".to_owned();
    assert_eq!(ProjectLayout::new(&value).unwrap().source_root(), "/p");
}

#[test]
fn rejects_escaping_empty_and_overlapping_paths() {
    let mut value = project("/p");
    value.config.paths.source = "../source".to_owned();
    assert!(ProjectLayout::new(&value).is_err());
    value.config.paths.source = "src".to_owned();
    value.config.paths.public = "/p/public".to_owned();
    assert!(ProjectLayout::new(&value).is_err());
    value.config.paths.public = "src/public".to_owned();
    assert!(ProjectLayout::new(&value).is_err());
    value.config.paths.public = "public".to_owned();
    value.config.paths.output = String::new();
    assert!(ProjectLayout::new(&value).is_err());
    value.config.paths.output = "src/generated".to_owned();
    assert!(ProjectLayout::new(&value).is_err());
    value.config.paths.output = "dist".to_owned();
    value.config.package.included = vec!["../LICENSE".to_owned()];
    assert!(ProjectLayout::new(&value).is_err());
}

#[test]
fn lays_out_workshop_packages() {
    assert_eq!(workshop_package_path("/p/dist", "Example"), "/p/dist/workshop/Example");
    assert_eq!(
        package_layout("/p/dist/workshop/.Example.staging-1", "Example"),
        (
            "/p/dist/workshop/.Example.staging-1/Contents/mods/Example".to_owned(),
            "/p/dist/workshop/.Example.staging-1/preview.png".to_owned(),
            "/p/dist/workshop/.Example.staging-1/workshop.txt".to_owned(),
        )
    );
}

#[test]
fn resolves_every_configured_include() {
    let mut value = project("/p");
    value.config.package.included = vec!["CHANGELOG.md".to_owned(), "./docs/LICENSE".to_owned()];
    let layout = ProjectLayout::new(&value).unwrap();
    for included in &value.config.package.included {
        assert!(layout.included(included).is_ok());
    }
    assert_eq!(layout.included("./docs/LICENSE").unwrap(), ("docs/LICENSE".to_owned(), "/p/docs/LICENSE".to_owned()));
}

#[test]
fn validates_output_paths() {
    let mut value = project("/p");
    assert_eq!(ProjectLayout::new(&value).unwrap().output_root(), "/p/dist");
    value.config.paths.output = "../outside".to_owned();
    assert!(ProjectLayout::new(&value).is_err());
    value.config.paths.output = "/p/absolute".to_owned();
    assert!(ProjectLayout::new(&value).is_err());
    value.config.paths.output = "src/generated".to_owned();
    assert_eq!(ProjectLayout::new(&value).unwrap_err().message(), "unsafe output directory: /p/src/generated");
    value.config.paths.output = String::new();
    assert_eq!(ProjectLayout::new(&value).unwrap_err().message(), "paths.output must not be empty");
}

#[test]
fn artifact_clean_rejects_unsafe_output() {
    let mut value = project("/p");
    value.config.paths.output = "src/output".to_owned();
    assert!(ProjectLayout::new(&value).is_err());
}

#[test]
fn mod_clean_rejects_unsafe_output() {
    let mut value = project("/p");
    value.config.paths.output = "src/output".to_owned();
    assert!(ProjectLayout::new(&value).map(|layout| layout.output_root()).is_err());
}

#[test]
fn normalizes_relative_paths() {
    assert_eq!(relative("./a//b/.", "x", false).unwrap(), ["a", "b"]);
    assert_eq!(relative("a/../b", "x", false).unwrap_err().message(), "x must be a relative path without parent traversal");
    assert!(relative(".", "x", true).unwrap().is_empty());
    let layout = ProjectLayout::new(&project("/p")).unwrap();
    assert_eq!(layout.included("./docs//LICENSE").unwrap(), ("docs/LICENSE".to_owned(), "/p/docs/LICENSE".to_owned()));
}

#[test]
fn config_defaults_are_build_42_and_conventional_paths() {
    let config = Config::default();
    assert_eq!(config.manifest_version, 1);
    assert_eq!(config.project.builds, ["42"]);
    assert_eq!(config.paths.source, "src");
    assert_eq!(config.paths.output, "dist");
    let mut other = Config::default();
    other.manifest_version = 2;
    assert_eq!(
        Project::from_config("/p".to_owned(), other).unwrap_err().message(),
        "unsupported manifest version 2; expected 1"
    );
}

#[test]
fn rejects_invalid_user_configuration() {
    let mut config = UserConfig::new();
    assert!(config.validate().is_ok());
    config.author = Some(String::new());
    assert!(config.validate().is_err());
    config.author = Some("bad\nname".to_owned());
    assert!(config.validate().is_err());
    config.author = Some("Author".to_owned());
    config.mods_root = Some("relative".to_owned());
    assert_eq!(config.validate().unwrap_err().message(), "default mods root must be an absolute path");
    config.mods_root = Some("/abs".to_owned());
    config.workshop_root = Some("relative".to_owned());
    assert!(config.validate().is_err());
}

#[test]
fn scaffold_rejects_initialization_without_mod_metadata() {
    assert!(adopted_source(false, false, false).is_err());
    assert_eq!(adopted_source(false, true, true).unwrap(), "src");
}

#[test]
fn mod_rejects_initialization_without_mod_metadata() {
    assert_eq!(
        adopted_source(false, false, false).unwrap_err().message(),
        "could not find src/mod.info, src/42/mod.info or 42/mod.info in the project"
    );
    assert_eq!(adopted_source(false, false, true).unwrap(), ".");
    assert_eq!(adopted_source(true, false, false).unwrap(), "src");
}

#[test]
fn plans_scaffolds_and_adoptions() {
    assert_eq!(scaffold_directories()[0], "src/client");
    assert_eq!(scaffold_keep_files()[3], "src/media/scripts/.gitkeep");
    assert!(scaffold_config().package.included.is_empty());
    assert_eq!(SCAFFOLD_METADATA, "src/mod.info");
    let values = scaffold_values("Example", "Example", "Author", "42");
    assert_eq!(values[2], ("version".to_owned(), "0.1.0".to_owned()));
    let config = adopted_config(".".to_owned(), false, true);
    assert_eq!(config.paths.source, ".");
    assert_eq!(config.package.included, ["LICENSE"]);
    assert!(check_manifest_replacement("knoxmancer.toml", true, false).is_err());
    assert!(check_manifest_replacement("knoxmancer.toml", true, true).is_ok());
}

#[test]
fn parses_steam_libraries_and_ignores_absent_roots() {
    let source = r#"
            "libraryfolders"
            {
                "0" { "path" "C:\\Program Files (x86)\\Steam" }
                "1"
                {
                    "path" "D:\\Games\\Steam"
                }
            }
        "#;
    assert_eq!(vdf_library_paths(source), ["C:\\Program Files (x86)\\Steam", "D:\\Games\\Steam"]);
    assert_eq!(quoted_values("\"a\" \"b\\\"c\""), ["a", "b\"c"]);
    assert_eq!(normalize_steam_root("/home/u/.steam/steam/steamapps"), "/home/u/.steam/steam");
    assert_eq!(normalize_steam_root("/home/u/Steam"), "/home/u/Steam");
}

#[test]
fn discovers_each_copy_source_and_conflicts() {
    let text = "name=Example\nid=Example\nmodversion=1.0.0\n";
    assert_eq!(field(text, "modversion").unwrap(), "1.0.0");
    let local = matching_copy(CopySource::Local, "/m/local-name", text, "Example").unwrap();
    assert!(matching_copy(CopySource::Local, "/m/other", "id=Other\n", "Example").is_none());
    let steam = InstalledCopy { source: CopySource::Steam, version: None, path: "/s/123/mods/subscribed-name".to_owned() };
    let staged = InstalledCopy {
        source: CopySource::Staging,
        version: Some("0.9.0".to_owned()),
        path: "/w/project/Contents/mods/staged-name".to_owned(),
    };
    let second = InstalledCopy { source: CopySource::Local, version: Some("1.0.0".to_owned()), path: "/m/a-name".to_owned() };
    let duplicate = InstalledCopy { source: CopySource::Local, version: Some("1.0.0".to_owned()), path: "/m/a-name".to_owned() };
    let ordered = order_copies(vec![steam, staged, local, second, duplicate]);
    let paths: Vec<_> = ordered.iter().map(|c| c.path.as_str()).collect();
    assert_eq!(paths, ["/m/a-name", "/m/local-name", "/w/project/Contents/mods/staged-name", "/s/123/mods/subscribed-name"]);
    assert!(has_stale_staging(&ordered, "1.0.0"));
    assert!(knoxmancer::copies::has_resolution_conflict(&ordered, "1.0.0"));
}

#[test]
fn names_staging_and_backup_directories() {
    assert_eq!(staging_path("/out/dev", "Example", 42), "/out/dev/.Example-staging-42");
    assert_eq!(backup_path("/mods", None, 7), "/mods/.artifact-backup-7");
    assert_eq!(backup_path("/mods", Some("Example"), 7), "/mods/.Example-backup-7");
}

#[test]
fn decides_replacement_recovery() {
    assert_eq!(after_failed_install(false, true), InstallRecovery::Report);
    assert_eq!(after_failed_install(true, true), InstallRecovery::ReportWinner);
    assert_eq!(after_failed_install(true, false), InstallRecovery::RollBack);
    let denied = IoFailure { message: "Permission denied".to_owned(), permission_denied: true };
    assert_eq!(
        destination_error(&denied, "/mods/Example", "could not replace the directory").message(),
        "could not replace the directory /mods/Example: Permission denied. Project Zomboid or another program may be using these files; close it and try again."
    );
    assert!(finish_replacement("/b", Ok(())).cleanup_warning.is_none());
    assert_eq!(
        finish_replacement("/b", Err("busy".to_owned())).cleanup_warning.unwrap(),
        "replacement succeeded, but old backup /b could not be removed: busy"
    );
}

#[test]
fn stage_rejects_an_unsafe_package_id() {
    assert!(!is_direct_child("../outside"));
    assert!(!is_direct_child(""));
    assert!(!is_direct_child("."));
    assert!(is_direct_child("Example"));
}

#[test]
fn plans_artifacts_and_minifier_runs() {
    assert_eq!(artifact_destination("/p/dist", BuildProfile::Release, "Example"), "/p/dist/release/Example");
    let plan = source_copies("/p/src", "/stage", &vec!["42".to_owned()]);
    assert_eq!(plan.len(), 5);
    assert_eq!(plan[0], (CopyKind::File, "/p/src/mod.info".to_owned(), "/stage/42/mod.info".to_owned()));
    assert_eq!(plan[2], (CopyKind::TreeIfPresent, "/p/src/client".to_owned(), "/stage/42/media/lua/client".to_owned()));
    let args = vec!["-o".to_owned(), "{output}".to_owned(), "{input}".to_owned()];
    assert_eq!(minify_arguments(&args, "a.lua", "a.lua.knoxmancer"), ["-o", "a.lua.knoxmancer", "a.lua"]);
    assert!(writes_output(&args));
    assert!(!writes_output(&vec!["{input}".to_owned()]));
    assert_eq!(generated_path("/x/a.lua"), "/x/a.lua.knoxmancer");
    assert_eq!(replace_str("aXbXc", "X", "--"), "a--b--c");
    assert_eq!(minifier_no_output("a.lua").message(), "minifier produced no output for a.lua");
    let artifact = BuildArtifact { path: "/p".to_owned(), mod_id: "E".to_owned(), profile: BuildProfile::Development, warnings: vec![] };
    assert!(ReleaseArtifact::from_artifact(artifact).is_err());
    assert_eq!(BuildProfile::Development.name(), "dev");
}

#[test]
fn resolves_game_directories() {
    assert_eq!(zomboid_root(None, "/cwd", Some("/home/u"), "mods").unwrap(), "/home/u/Zomboid/mods");
    assert_eq!(zomboid_root(Some("rel"), "/cwd", None, "mods").unwrap(), "/cwd/rel");
    assert_eq!(zomboid_root(Some("/abs"), "/cwd", None, "mods").unwrap(), "/abs");
    assert!(zomboid_root(None, "/cwd", None, "Workshop").is_err());
    assert_eq!(command_line("git", Some(("git version 2.40\n".to_owned(), String::new()))), "git: git version 2.40");
    assert_eq!(command_line("git", None), "git: not found");
    assert_eq!(directory_line("Local mods", "/m", true), "Local mods: /m (found)");
}

#[test]
fn staging_cleanup_accepts_only_staged_mod_directories() {
    assert!(check_staging_removal("/w", "/w/Project/Contents/mods/Example").is_ok());
    let shallow = check_staging_removal("/w", "/w/Project/Example").unwrap_err();
    assert_eq!(shallow.message(), "unsafe Workshop staging cleanup path: /w/Project/Example");
    assert!(check_staging_removal("/w", "/other/Project/Contents/mods/Example").is_err());
    assert!(check_staging_removal("/w", "/wx/Project/Contents/mods/Example").is_err());
    assert!(check_staging_removal("/w", "/w/Project/Contents/mods/Example/42").is_err());
}

#[test]
fn ordering_copies_keeps_the_first_discovered_of_a_repeated_path() {
    let first = InstalledCopy { source: CopySource::Steam, version: Some("2.0.0".to_owned()), path: "/s/1/mods/x".to_owned() };
    let local = InstalledCopy { source: CopySource::Local, version: None, path: "/m/x".to_owned() };
    let again = InstalledCopy { source: CopySource::Steam, version: Some("1.0.0".to_owned()), path: "/s/1/mods/x".to_owned() };
    let ordered = order_copies(vec![first, local, again]);
    assert_eq!(ordered.len(), 2);
    assert_eq!(ordered[0].path, "/m/x");
    assert_eq!(ordered[1].version.as_deref(), Some("2.0.0"));
}

#[test]
fn refuses_paths_that_resolve_outside_their_root() {
    assert!(is_within("/p/src", "/p"));
    assert!(is_within("/p", "/p/"));
    assert!(!is_within("/px/src", "/p"));
    assert!(!is_within("p/src", "/p"));
    assert!(is_directly_inside("/m/Example", "/m"));
    assert!(!is_directly_inside("/m/Example/42", "/m"));
    assert!(check_confined("paths.output", "/p/dist", "/p", Some("/p")).is_ok());
    assert_eq!(
        check_confined("paths.output", "/p/dist", "/p", Some("/elsewhere/dist")).unwrap_err().message(),
        "paths.output resolves outside the project: /p/dist"
    );
    assert_eq!(
        check_confined("release.include", "/p/LICENSE", "/p", None).unwrap_err().message(),
        "release.include cannot be resolved within the project"
    );
}

#[test]
fn decides_live_destinations_and_staged_copies() {
    assert!(check_live_destination("Example", "/m/Example", true, false).is_ok());
    assert_eq!(
        check_live_destination("../x", "/m/../x", true, false).unwrap_err().message(),
        "unsafe live-install destination: /m/../x"
    );
    assert_eq!(
        check_live_destination("Example", "/m/Example", false, false).unwrap_err().message(),
        "live installation requires an existing local copy at /m/Example; run `km install` first"
    );
    assert_eq!(
        check_live_destination("Example", "/m/Example", true, true).unwrap_err().message(),
        "live installation does not support a linked mod directory: /m/Example"
    );
    assert!(check_live_canonical("/m/Example", "/real/m", "/real/m/Example").is_ok());
    assert_eq!(
        check_live_canonical("/m/Example", "/real/m", "/other/Example").unwrap_err().message(),
        "live-install destination resolves outside the mods root: /m/Example"
    );
    assert!(check_installed_id("/m/Example", "Example", "Example").is_ok());
    assert_eq!(
        check_installed_id("/m/Example", "Example", "Other").unwrap_err().message(),
        "installed mod ID `Other` does not match `Example` at /m/Example"
    );
    assert!(check_staging_canonical("/w/P/Contents/mods/E", "/w", "/w/P/Contents/mods/E").is_ok());
    assert_eq!(
        check_staging_canonical("/w/P/Contents/mods/E", "/w", "/x/E").unwrap_err().message(),
        "Workshop staging copy resolves outside its configured root: /w/P/Contents/mods/E"
    );
    let staged = InstalledCopy { source: CopySource::Staging, version: Some("1.0.0".to_owned()), path: "/w/E/Contents/mods/E".to_owned() };
    let copies = vec![staged];
    assert!(check_staged_copy(&copies, "/w/E", "E", "1.0.0").is_ok());
    assert_eq!(
        check_staged_copy(&copies, "/w/E", "E", "2.0.0").unwrap_err().message(),
        "Workshop staging verification failed after replacement"
    );
}
