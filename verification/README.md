# grm — Git Repository Manager

`grm` manages a tree of git repositories described by listfiles: each line names a
repository's remote path, local path and configuration parameter, or sets a
configuration value. Depending on the mode it lists, clones, initialises, configures
or re-points the repositories, and recurses into subdirectories that hold listfiles of
their own.

The library under `src/` is verified with Verus:

- `text` — character-level helpers over `str` with exact contracts.
- `listfile` — the listfile grammar: cells, escapes, comments, configuration lines and
  repository lines, and a line iterator; `listfile_laws` proves its general properties.
- `config` — settings, loading from configuration files and the environment, validation,
  and the derivation of local paths, remote paths and remote URLs.
- `invoke` — running commands through a replaceable `CommandRunner`.
- `repository` — the git operations on one repository and how their exit codes read.
- `plan` — the per-repository state machine, the tree filter, and what a recursive
  child process inherits.
- `trusted` — the calls into `regex`, `gix-url`, `shell-escape` and `shlex`, each behind a
  contract.

`app/` holds the command-line program: argument parsing, file system access, process
spawning and printing. `tests/` exercises the library.
