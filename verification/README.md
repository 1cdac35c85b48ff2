# bakery

The core of a build engine for Yocto/OE and Android projects, written in Verus.
A workspace is described by JSON files: the workspace settings (`workspace.json`)
and one build configuration per product. The library reads them into typed
records, expands the context variables they refer to (`${NAME}` or `$#[NAME]`), and composes
the command lines that the tool runs: bitbake invocations, task build commands,
and `docker run` lines. Every function of `src/` is verified against its contract,
except the small trusted wrappers that call `serde_json`, `indexmap`, `regex`,
`chrono` and std, whose contracts state what those crates document. A reference
`$#[NAME]` reads the variable `NAME`, or else the built-in `BKRY_NAME`.

Layout:

- `src/json.rs`, `src/imap.rs`, `src/text.rs`, `src/paths.rs`: the values the
  library works on (JSON trees, insertion-ordered maps, strings, paths) and the
  trusted wrappers around `serde_json`, `indexmap`, `regex` and std.
- `src/configs/`: the settings, the task, bitbake and artifact nodes of a build
  configuration, the context and its expansion, locating the files of a
  workspace, and merging a build configuration with the ones it includes (the
  main configuration wins every name clash).
- `src/data/`: the records a build works with, the context with its built-in
  variables, and a build configuration read as a whole (tasks in index order).
- `src/executers/`, `src/commands.rs`, `src/collector.rs`, `src/listing.rs`: the
  command lines and decisions of the sub-commands: what `list` prints, what
  `shell` runs (or whether it bootstraps into docker), which steps `clean` takes.
- `src/order.rs`: the stable ordering of tasks by index, with its laws.
- `app/main.rs`: the command line program; it reads files, asks the host about
  the user, and runs the command lines.
