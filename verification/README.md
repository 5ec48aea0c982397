# knoxmancer

A command-line tool for creating, validating, building, installing and
staging Project Zomboid Build 42 mods, whose core is verified with Verus.

## Layout

- `src/` — the verified library: mod naming and metadata, manifest paths and
  their layout rules, Markdown to Steam BBCode rendering, PNG preview
  generation and inspection, installed-copy discovery rules, atomic-replacement
  decisions (`replace`), unique staging names (`staging`), the checks on
  link-resolved paths (`layout`, `live`, `copies`), and every line of human or
  JSON output (`output`). Calls into `regex`, `image`, `pulldown-cmark` and
  `serde_json` go through small trusted wrappers whose contracts name the
  results.
- Two checks are state machines that `app/` drives step by step, performing
  the filesystem work and handing each outcome back:
  - `validation::Checks` — project and Workshop validation. Each check is
    owed once, in a fixed order (builds, changelog, public files, preview,
    Workshop metadata, source layout, translation files, release includes),
    and the result is only available once every owed check was recorded.
    Translation files are `.json` files under a `Translate` directory of the
    sources and must parse as JSON.
  - `sync::LiveSync` — live installation. Every planned write is recorded
    once, removals are allowed only when no write failed, and the final file
    set and the content of every installed file are checked before the result
    is available; a result with no failed operation means the installed tree
    holds exactly the artifact's files, with equal bytes.
- `src/png.rs` is a self-contained PNG writer and chunk validator with its
  laws; the tool itself generates and inspects previews through `image`
  (`src/preview.rs`).
- `app/` — the executable around it: argument parsing with `clap`, TOML
  manifests and user settings with `serde`/`toml`, filesystem walks with
  `walkdir`, Steam discovery with `steamlocate`, and the command workflows that
  perform what the library decides and print what it renders.
- `tests/` — tests of the library's public functions on concrete values.

Exit codes are `0` for success, `1` for operational failure and `2` for invalid
usage.
