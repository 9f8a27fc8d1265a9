# taotie_parsers

Forensic artifact readers with proved contracts: Windows event logs (XML and
CSV exports), `$MFT` images, the NTFS change journal, prefetch files and their
exports, shortcut files, ESE pages, registry hive strings, scheduled tasks,
OneDrive logs, plain text and structured text logs, and JSON exports.

- `src/` is the library, written in Verus. Each public function states in its
  `ensures` what it returns, over spec functions that say what the artifact
  holds; `src/laws.rs` holds the properties that span several functions.
  Calls into `chrono`, `sha2`, `encoding_rs`, `flate2`, `prefetch-core` and
  `evtx` go through the trusted items of `src/external.rs`, whose contracts are
  believed, not proved.
- `app/` holds what the library leaves to ordinary Rust: reading evidence from
  disk, the import-time fallbacks for records without a time, turning
  `serde_json` values into the library's JSON tree, and JSON output.
- `tests/` runs the library on concrete inputs.
