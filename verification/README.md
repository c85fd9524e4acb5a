# rscheck

A policy-driven linter for Rust workspaces, with its decisions verified by Verus.

## Layout

- `src/` — the verified library. Every public function carries a `requires` /
  `ensures` contract over a mathematical model (`Seq`, `Set`, spec functions),
  and the laws of the library are public proof functions.
  - `config/` — the TOML model of a policy (`value`), TOML text read into it
    through the `toml` crate (`toml_text`), reading rule options
    (`read`, `rule_options`), layering policies (`merge`, `extends`), the
    policy itself (`policy`), and migration from the previous layout
    (`migrate`, `rule_keys`, `migrate_policy`, `legacy`, `path_ops`).
  - `rules/` — each rule's decision on the facts of a file (`module_paths`,
    `literal_paths`, `top_items`, `name_rules`, `type_aliases`,
    `file_complexity`, `custom_pattern`, `duplicates`), the rule catalogue, and
    running the rules over one file (`runs`).
  - `fix`, `fix_apply` — locating and applying text edits, choosing which
    suggested edits to apply, previewing them.
  - `report`, `emit`, `runner` — findings, the report, and one run.
  - `text_report`, `html`, `sarif` — the report's outputs.
  - `cargo_clippy`, `toolchain`, `semantic` — the clippy adapter's findings and
    the toolchain choice.
  - `analysis` — which workspace files a check reads; `source` — a read
    source file and whether it parses (through `syn`).
  - `draw` — the calls into `annotate-snippets` that draw a finding, behind
    trusted wrappers whose results are named.
  - `glob`, `regex_match` — the calls into `globset` and `regex`, behind
    trusted wrappers whose results are named.
- `app/` — the command-line program around the library: argument parsing,
  walking and reading files, extracting from parsed sources the facts the
  rules read, running processes and writing reports.
- `tests/` — tests of the library on concrete values.
