use knoxmancer::changelog::release_history;
use knoxmancer::description::{heading_close, markdown_to_bbcode, render, render_with_version, MdEvent, MdTagEnd, Renderer};
use knoxmancer::error::{Error, ErrorKind};
use knoxmancer::live::{LiveAction, LiveOperation, LiveStatus};
use knoxmancer::output::{ColorChoice, OutputFormat, OutputOptions, Reporter, Stream};

#[test]
fn renders_human_and_json_events() {
    for format in [OutputFormat::Human, OutputFormat::Json] {
        for quiet in [true, false] {
            let reporter = Reporter::new(OutputOptions { quiet, color: ColorChoice::Never, format });
            assert_eq!(reporter.status("status").is_none(), quiet);
            assert_eq!(reporter.warning("visible warning").stream, Stream::Stderr);
            assert_eq!(reporter.path("test", "Test", "path").is_none(), quiet);
            assert_eq!(reporter.error(&Error::validation("invalid"), false).stream, Stream::Stderr);
            assert_eq!(reporter.mod_copy("local", "Local", Some("1.0.0"), true, "mod").is_none(), quiet);

            for (status, message) in [
                (LiveStatus::Applied, None),
                (LiveStatus::Unchanged, None),
                (LiveStatus::Failed, Some("failed".to_owned())),
                (LiveStatus::Skipped, Some("skipped".to_owned())),
            ] {
                let diagnostic = message.is_some();
                let emitted = reporter.live_operation(&LiveOperation {
                    action: LiveAction::Update,
                    status,
                    path: "42/file.lua".to_owned(),
                    message,
                });
                if diagnostic {
                    assert_eq!(emitted.unwrap().stream, Stream::Stderr);
                }
            }
        }
    }
}

#[test]
fn renders_exact_event_text() {
    let human = Reporter::new(OutputOptions { quiet: false, color: ColorChoice::Never, format: OutputFormat::Human });
    let json = Reporter::new(OutputOptions { quiet: false, color: ColorChoice::Never, format: OutputFormat::Json });
    assert_eq!(human.status("Built").unwrap().text, "Built\n");
    assert_eq!(json.status("Built \"x\"").unwrap().text, "{\"type\":\"status\",\"message\":\"Built \\\"x\\\"\"}\n");
    assert_eq!(human.path("project", "Project", "/p").unwrap().text, "Project: /p\n");
    assert_eq!(json.path("project", "Project", "/p").unwrap().text, "{\"type\":\"path\",\"name\":\"project\",\"path\":\"/p\"}\n");
    assert_eq!(human.warning("careful").text, "warning: careful\n");
    assert_eq!(
        json.error(&Error::validation("bad\nline"), false).text,
        "{\"type\":\"error\",\"kind\":\"validation\",\"message\":\"bad\\nline\",\"exit_code\":1}\n"
    );
    assert_eq!(human.error(&Error::project("nope"), false).text, "error: nope\n");
    let colored = Reporter::new(OutputOptions { quiet: false, color: ColorChoice::Auto, format: OutputFormat::Human });
    assert_eq!(colored.error(&Error::project("nope"), true).text, "\x1b[31merror:\x1b[0m nope\n");
    assert_eq!(colored.error(&Error::project("nope"), false).text, "error: nope\n");
    assert_eq!(
        human.mod_copy("steam", "Steam subscription", None, false, "/w/1").unwrap().text,
        "Steam subscription: unknown version [different] (/w/1)\n"
    );
    assert_eq!(
        json.mod_copy("local", "Local installation", Some("1.0.0"), true, "/m").unwrap().text,
        "{\"type\":\"mod_copy\",\"source\":\"local\",\"version\":\"1.0.0\",\"current\":true,\"path\":\"/m\"}\n"
    );
    let failed = LiveOperation {
        action: LiveAction::Remove,
        status: LiveStatus::Failed,
        path: "42/a.lua".to_owned(),
        message: Some("denied".to_owned()),
    };
    assert_eq!(human.live_operation(&failed).unwrap().text, "failed remove: 42/a.lua: denied\n");
    assert_eq!(
        json.live_operation(&failed).unwrap().text,
        "{\"type\":\"file_operation\",\"action\":\"remove\",\"status\":\"failed\",\"path\":\"42/a.lua\",\"message\":\"denied\"}\n"
    );
    let unchanged = LiveOperation { action: LiveAction::Unchanged, status: LiveStatus::Unchanged, path: "a".to_owned(), message: None };
    assert!(human.live_operation(&unchanged).is_none());
    let help = Error::usage("usage: km\n".to_owned(), 0);
    assert_eq!(Reporter::usage(&help).stream, Stream::Stdout);
    let misuse = Error::usage("error: bad\n".to_owned(), 2);
    assert_eq!(Reporter::usage(&misuse).stream, Stream::Stderr);
    assert_eq!(misuse.exit_code(), 2);
    assert_eq!(misuse.kind(), ErrorKind::Usage);
    assert_eq!(Error::usage("odd".to_owned(), 300).exit_code(), 2);
}

#[test]
fn converts_supported_commonmark_without_reinterpreting_code() {
    let rendered = markdown_to_bbcode(
        "# Top\n## Heading\n### Subheading\n\n**bold** and *italic* with [link](https://example.com/a_b) and `*literal* [b]`\nsoft\nbreak  \nhard break\n\n---\n\n- one\n- two\n\n```lua\nreturn [b]\n```\n\nafter",
    )
    .unwrap();
    assert!(rendered.contains("[h1]Top[/h1]"));
    assert!(rendered.contains("[h2]Heading[/h2]"));
    assert!(rendered.contains("[h3]Subheading[/h3]"));
    assert!(rendered.contains("[b]bold[/b]"));
    assert!(rendered.contains("[i]italic[/i]"));
    assert!(rendered.contains("[url=https://example.com/a_b]link[/url]"));
    assert!(rendered.contains("[code]*literal* &#91;b&#93;[/code]"));
    assert!(rendered.contains("[hr][/hr]"));
    assert!(rendered.contains("[list]\n[*]one\n[*]two\n[/list]"));
    assert!(rendered.contains("[code]\nreturn &#91;b&#93;\n\n[/code]"));
    assert!(rendered.ends_with("after"));
}

#[test]
fn converts_supported_markdown() {
    let rendered = markdown_to_bbcode("## Heading\n\n**bold** and [link](https://example.com)\n\n- one\n- two").unwrap();
    assert!(rendered.contains("[h2]Heading[/h2]"));
    assert!(rendered.contains("[b]bold[/b]"));
    assert!(rendered.contains("[url=https://example.com]link[/url]"));
    assert!(rendered.contains("[list]\n[*]one\n[*]two\n[/list]"));
}

#[test]
fn rejects_unsupported_or_unsafe_markdown() {
    for markdown in [
        "#### unsupported",
        "1. ordered",
        "<b>html</b>",
        "[unsafe](file:///tmp/example)",
        "![image](https://example.com/image.png)",
        "- outer\n  - nested",
    ] {
        assert!(markdown_to_bbcode(markdown).is_err(), "accepted {markdown}");
    }
}

#[test]
fn rejects_parser_events_outside_the_supported_commonmark_subset() {
    let mut renderer = Renderer::new();
    for event in [MdEvent::InlineMath, MdEvent::DisplayMath, MdEvent::FootnoteReference, MdEvent::TaskListMarker(true)] {
        assert!(renderer.event(&event).is_err());
    }
    assert!(renderer.end(&MdTagEnd::List(true)).is_err());
    assert!(renderer.end(&MdTagEnd::Other).is_err());
    assert!(heading_close(4).is_err());

    renderer.output = "text".to_owned();
    renderer.block_separator();
    assert_eq!(renderer.output, "text\n\n");
    renderer.output = "text\n".to_owned();
    renderer.block_separator();
    assert_eq!(renderer.output, "text\n\n");
}

#[test]
fn validates_description_content_and_limits() {
    let template = "version=1\nid=0\ntitle=Example\n{{DESCRIPTION}}\ntags=Build 42\nvisibility=unlisted\n";
    let rendered = render("public/description.md", "plain", "public/workshop.txt", template).unwrap();
    assert!(rendered.contains("description=plain"));
    assert_eq!(rendered, "version=1\nid=0\ntitle=Example\ndescription=plain\ntags=Build 42\nvisibility=unlisted\n");
    let empty = render("public/description.md", "\n", "public/workshop.txt", template).unwrap_err();
    assert_eq!(empty.message(), "public/description.md: Workshop description must not be empty");
    assert!(render("public/description.md", "<b>html</b>", "public/workshop.txt", template).is_err());
    let long = "x".repeat(8_000);
    let oversized = render("public/description.md", &long, "public/workshop.txt", template).unwrap_err();
    assert_eq!(oversized.message(), "Workshop description must be under 8000 bytes; found 8000");
    let twice = render("public/description.md", "plain", "public/workshop.txt", "{{DESCRIPTION}}{{DESCRIPTION}}").unwrap_err();
    assert_eq!(twice.message(), "public/workshop.txt: {{DESCRIPTION}} must appear exactly once");
    let lines = render("d.md", "first\n\nsecond", "w.txt", "{{DESCRIPTION}}").unwrap();
    assert_eq!(lines, "description=first\ndescription=\ndescription=second");
}

#[test]
fn requires_current_release_first() {
    assert!(release_history("# Changelog\n\n## 1.0.0\n\n- Initial", "1.0.0").is_ok());
    assert!(release_history("# Changelog\n\n## 0.9.0\n\n- Old", "1.0.0").is_err());
}

#[test]
fn renders_every_release_with_its_notes() {
    let history = release_history("# Changelog\n\n## 1.1.0\n\n- Second\n- More\n\n## 1.0.0\n\n- Initial\n", "1.1.0").unwrap();
    assert_eq!(history, "### 1.1.0\n- Second\n- More\n\n### 1.0.0\n- Initial");
    let empty = release_history("## 1.0.0\n\nno notes\n", "1.0.0").unwrap_err();
    assert_eq!(empty.message(), "CHANGELOG.md release 1.0.0 has no notes");
    let missing = release_history("nothing", "1.0.0").unwrap_err();
    assert_eq!(missing.message(), "CHANGELOG.md must begin with version 1.0.0");
}

#[test]
fn packaged_description_resolves_the_mod_version() {
    let rendered = render_with_version(
        "public/description.md",
        "Version {{MOD_VERSION}} of {{MOD_VERSION}}",
        "1.2.3",
        "public/workshop.txt",
        "title=Example\n{{DESCRIPTION}}\n",
    )
    .unwrap();
    assert_eq!(rendered, "title=Example\ndescription=Version 1.2.3 of 1.2.3\n");
    let untouched = render_with_version("d.md", "plain", "9.9.9", "w.txt", "{{DESCRIPTION}}").unwrap();
    assert_eq!(untouched, "description=plain");
}

#[test]
fn escapes_json_strings_as_serde_json_does() {
    let json = Reporter::new(OutputOptions { quiet: false, color: ColorChoice::Never, format: OutputFormat::Json });
    let message = "a\"b\\c\n\t\r\u{8}\u{c}\u{1}\u{1f} é /";
    let emitted = json.status(message).unwrap();
    assert_eq!(emitted.stream, Stream::Stdout);
    assert_eq!(emitted.text, "{\"type\":\"status\",\"message\":\"a\\\"b\\\\c\\n\\t\\r\\b\\f\\u0001\\u001f é /\"}\n");
    let expected = format!("{{\"type\":\"status\",\"message\":{}}}\n", serde_json::to_string(message).unwrap());
    assert_eq!(emitted.text, expected);
}
