use knoxmancer::copies::{has_resolution_conflict, CopySource, InstalledCopy};
use knoxmancer::diagnostic::Diagnostic;
use knoxmancer::error::{Error, ErrorKind};
use knoxmancer::live::{operation, LiveAction, LiveInstallResult, LiveOperation, LiveStatus};
use knoxmancer::naming::{display_name, mod_id, validate_id, validate_text};
use knoxmancer::output::{report_live_summary, report_warnings, ColorChoice, OutputFormat, OutputOptions, Reporter, Stream};
use knoxmancer::process::ProcessOutput;
use knoxmancer::{png, preview};
use knoxmancer::staging::{staging_path, TokenSource};
use knoxmancer::templates::render;

#[test]
fn reports_each_cleanup_warning() {
    let reporter = Reporter::new(OutputOptions { quiet: true, color: ColorChoice::Auto, format: OutputFormat::Json });
    let emitted = report_warnings(&["first".to_owned(), "second".to_owned()], &reporter);
    assert_eq!(emitted.len(), 2);
    assert_eq!(emitted[0].stream, Stream::Stderr);
    assert_eq!(emitted[0].text, "{\"type\":\"warning\",\"message\":\"first\"}\n");
    assert_eq!(emitted[1].text, "{\"type\":\"warning\",\"message\":\"second\"}\n");
}

#[test]
fn reports_a_complete_live_install_summary() {
    let reporter = Reporter::new(OutputOptions { quiet: true, color: ColorChoice::Auto, format: OutputFormat::Human });
    let operations = [
        (LiveAction::Create, LiveStatus::Applied),
        (LiveAction::Update, LiveStatus::Applied),
        (LiveAction::Remove, LiveStatus::Applied),
        (LiveAction::Unchanged, LiveStatus::Unchanged),
        (LiveAction::Verify, LiveStatus::Failed),
        (LiveAction::Remove, LiveStatus::Skipped),
    ]
    .into_iter()
    .map(|(action, status)| LiveOperation { action, status, path: "42/file.lua".into(), message: None })
    .collect();
    let installed = LiveInstallResult { path: "Example".into(), operations };

    assert!(report_live_summary(&installed, &reporter).is_none());
    let loud = Reporter::new(OutputOptions { quiet: false, color: ColorChoice::Auto, format: OutputFormat::Human });
    let line = report_live_summary(&installed, &loud).unwrap();
    assert_eq!(line.stream, Stream::Stdout);
    assert_eq!(
        line.text,
        "Live install: 1 created, 1 updated, 1 removed, 1 unchanged, 1 failed, 1 skipped\n"
    );
}

#[test]
fn exposes_stable_operation_names_and_change_classification() {
    assert_eq!(LiveAction::Create.as_str(), "create");
    assert_eq!(LiveAction::Update.as_str(), "update");
    assert_eq!(LiveAction::Remove.as_str(), "remove");
    assert_eq!(LiveAction::Unchanged.as_str(), "unchanged");
    assert_eq!(LiveAction::Verify.as_str(), "verify");
    assert_eq!(LiveAction::CleanDirectory.as_str(), "clean_directory");
    assert_eq!(LiveStatus::Applied.as_str(), "applied");
    assert_eq!(LiveStatus::Unchanged.as_str(), "unchanged");
    assert_eq!(LiveStatus::Failed.as_str(), "failed");
    assert_eq!(LiveStatus::Skipped.as_str(), "skipped");

    let unchanged = LiveInstallResult {
        path: "Example".to_owned(),
        operations: vec![operation(LiveAction::Unchanged, LiveStatus::Unchanged, "42/file.lua", None)],
    };
    assert!(!unchanged.has_non_lua_changes());
    assert!(!unchanged.has_lua_topology_changes());
}

#[test]
fn exposes_every_stable_error_kind() {
    assert_eq!(ErrorKind::Usage.as_str(), "usage");
    assert_eq!(ErrorKind::Project.as_str(), "project");
    assert_eq!(ErrorKind::Validation.as_str(), "validation");
    assert_eq!(ErrorKind::Io.as_str(), "io");
}

#[test]
fn preserves_adapted_error_sources() {
    let error = Error::io(std::io::Error::new(std::io::ErrorKind::NotFound, "missing"));
    assert_eq!(error.source().unwrap(), "missing");
    assert!(Error::project("invalid").source().is_none());
}

#[test]
fn generates_and_inspects_pngs() {
    let image = png::generate(256, 256);
    assert_eq!(png::inspect(&image).unwrap(), (256, 256));
    let mut corrupt = image;
    corrupt[20] ^= 1;
    assert!(png::inspect(&corrupt).is_err());
    assert!(png::inspect(b"not png").is_err());
}

#[test]
fn names_the_chunk_of_a_png_checksum_failure() {
    let mut corrupt = png::generate(16, 16);
    corrupt[20] ^= 1;
    assert_eq!(png::inspect(&corrupt).unwrap_err(), "invalid IHDR chunk checksum");
}

#[test]
fn capitalizes_each_slug_word() {
    assert_eq!(display_name("my_cool-mod"), "My Cool Mod");
    assert_eq!(display_name("--a__b-"), "A B");
    assert_eq!(mod_id("my_cool-mod"), "MyCoolMod");
    assert_eq!(display_name("élan-vital"), "Élan Vital");
}

#[test]
fn formats_diagnostics_with_and_without_paths() {
    assert_eq!(Diagnostic::new("test", "message").to_string(), "[test] message");
    assert_eq!(Diagnostic::at("test", "mod.info", "message").to_string(), "[test] mod.info: message");
}

#[test]
fn bounds_decoded_png_data() {
    assert!(preview::inspect(&preview::generate(1024, 1024)).is_err());
}

#[test]
fn scaffold_derives_human_and_game_names() {
    assert_eq!(display_name("connected-storage"), "Connected Storage");
    assert_eq!(mod_id("connected-storage"), "ConnectedStorage");
}

#[test]
fn naming_derives_human_and_game_names() {
    assert_eq!(display_name("connected-storage"), "Connected Storage");
    assert_eq!(mod_id("connected-storage"), "ConnectedStorage");
}

#[test]
fn rejects_unsafe_metadata_text() {
    assert!(validate_text("mod name", "").is_err());
    assert!(validate_text("mod name", "bad\nname").is_err());
    assert!(validate_text("author", "valid author").is_ok());
    assert!(validate_id("").is_err());
    assert!(validate_id("valid_ID2").is_ok());
}

#[test]
fn substitutes_each_template_marker_once() {
    let rendered = render("name={{name}} id={{id}} keep={{UNKNOWN}}", &[("name", "{{id}}"), ("id", "Example")]);
    assert_eq!(rendered, "name={{id}} id=Example keep={{UNKNOWN}}");
}

#[test]
fn treats_one_current_load_candidate_as_unambiguous() {
    let copy = InstalledCopy { source: CopySource::Local, version: Some("1.0.0".to_owned()), path: "Example".to_owned() };
    assert!(!has_resolution_conflict(&vec![copy], "1.0.0"));
    let stale = InstalledCopy { source: CopySource::Steam, version: Some("0.9.0".to_owned()), path: "Stale".to_owned() };
    assert!(has_resolution_conflict(&vec![stale], "1.0.0"));
}

#[test]
fn staging_paths_are_unique() {
    let parent = "artifacts";
    let mut tokens = TokenSource::new(1_700_000_000_000_000_000, 4242);
    let paths = (0..1_000)
        .map(|_| staging_path(parent, "example", tokens.next()))
        .collect::<std::collections::BTreeSet<_>>();
    assert_eq!(paths.len(), 1_000);
}

#[test]
fn captures_output_and_exit_status() {
    let output = ProcessOutput::new(false, Some(7), "out\n".to_owned(), "err\n".to_owned());
    assert!(!output.success());
    assert_eq!(output.status_description(), "7");
    assert_eq!(output.lines(), ["out", "err"]);
    assert!(output.failure_detail().contains("out"));
}

#[test]
fn generates_and_fully_decodes_pngs() {
    let image = preview::generate(256, 256);
    assert_eq!(preview::inspect(&image).unwrap(), (256, 256));

    let mut corrupt = image.clone();
    let midpoint = corrupt.len() / 2;
    corrupt[midpoint] ^= 1;
    assert!(preview::inspect(&corrupt).is_err());
    assert!(preview::inspect(&image[..image.len() - 8]).is_err());
    assert!(preview::inspect(b"not png").is_err());
}

#[test]
fn preview_generation_reports_rejected_dimensions() {
    assert!(preview::try_generate(0, 16).is_none());
    assert!(preview::try_generate(16, 0).is_none());
    let image = preview::try_generate(32, 16).unwrap();
    assert_eq!(preview::inspect(&image).unwrap(), (32, 16));
}
