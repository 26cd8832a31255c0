# lowfat command logic

`lowfat` filters the output of shell commands before it reaches an AI agent.
This crate holds what its subcommands decide and print, proved with Verus;
`app/` wraps it with configuration, plugin discovery, files and processes.

- `src/commands/info.rs`, `src/commands/stats.rs`: which view `lowfat info`
  and `lowfat stats` show for their arguments.
- `src/commands/plugin/`: the `lowfat plugin` subcommands.
  - `catalog.rs`: plugin lookup, `list`, `info`, `trust`/`untrust` output.
  - `lf.rs`: the operations of a `.lf` rule set and the scripts in it that
    declare PEP 723 inline dependencies.
  - `doctor.rs`: the decisions of `doctor`, step by step, and its report.
  - `scaffold.rs`: the files and report of `new`.
  - `bench.rs`: sample selection and sample-name conventions of `bench`.
- `src/text.rs`: the text operations the output is built from, each with a
  specification (whitespace, trimming, splitting, joining, padding,
  decimal notation, code-point order).
- `src/embedded.rs`: the shape of the plugins bundled into the binary.
