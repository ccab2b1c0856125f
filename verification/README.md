# svnpush_core

The core of SVNpush, which takes a WordPress plugin from a local folder to a
published WordPress.org release: it decides what changed, drafts and checks
the release, plans every `svn` command, and decides what the run journal
records, so that a run that stopped after the trunk commit can be resumed
by creating only the tag. Every decision is written in Verus and
proved against its contract.

## Layout

- `src/` — the verified library.
  - `version/` — version numbers, their order, and the places a plugin
    declares its version (custom locations use `regex`).
  - `verify/` — the release checklist: blocking checks and warnings.
  - `svn/` — what an `svn` failure means, the argument lists of every
    command, `svn status --xml` (read with `roxmltree`), and mirroring a
    folder into the working copy.
  - `run/` — the release run: its state and journal, the change set and the
    material the AI reads (exclude patterns use `ignore`'s gitignore
    matcher), the AI panels, the file review, staging, Publish, Resume,
    Discard and roll-back.
  - `wporg_assets.rs`, `tools.rs`, `vault.rs`, `settings.rs`, `secret.rs`,
    `text.rs`, `plugin.rs`, `clock.rs` — assets, tool discovery, keychain
    naming, settings, secrets, text encoding, plugin facts, and the ISO 8601
    UTC times the journal records.
- `tests/` — tests of the library on concrete values.
- `app/` — the I/O around it: processes (`tokio`), the keychain
  (`keyring`), folder walks (`walkdir`), the project lock, and the JSON
  files (`serde_json`).

Calls into outside crates sit behind small trusted wrappers, each with a
doc comment that says what its contract claims of the call.
