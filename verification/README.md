# capsula

Capsula records what happened around a command run: the state of a git
repository, environment variables, files, parameters and the machine before
the command, the command's output, and files it produced after it. Each run
gets a directory in a vault, with a `_capsula/` directory for its records and
one `{phase}-{index}-{hook_id}/` directory per hook that keeps artifacts.

## Layout

- `src/` is the library, verified with Verus. Its public functions state
  their results in their contracts; file-system, process and repository access is
  passed in as closures (or as the values they gave), so that each hook's
  decisions are proved for every outcome of that access. A hook that copies,
  moves, writes or tags is run in two parts: `plan`, which only reads and
  makes every check, and the steps that carry out a plan, each given only the
  closure for its own effect; a refused run has therefore changed nothing.
  - `path`, `path_order`, `project_path`: Unix path syntax, path order, and
    resolution that keeps a path inside the project root.
  - `capture_*`: the hooks (`file`, `dir`, `git-repo`, `command`, `parameter`,
    `json`, `toml`, `yaml`, `cwd`, `env`, `machine`); `git_context`,
    `env_context`, `context_error`: the contexts.
  - `json`, `capture_parameter`: JSON values and the merge of parameter files
    into one object, with its laws (a merge with itself changes nothing,
    merged values stay well-formed, conflicts are reported under the key path
    where the merge started).
  - `run_layout`: run names, the run's directory, its `_capsula/` records
    and the record each hook leaves; `merge_law`: merging parameter values
    does not depend on their order.
  - `hook`, `config`, `client`, `report`, `api_types`: what hooks share and
    the artifact directory names, the configuration, request URLs and status
    checks of the server client, and the text the tool prints.
  - The calls the library trusts, each behind a function whose contract
    says what it relies on: `glob_pattern` (`glob`), `digest` (`sha2`),
    `utf8_lossy` and `text` (the standard library), `client`
    (`percent-encoding`), `report` (`shlex`, `chrono`), `capture_machine`
    (`sysinfo`) and `parse` (`serde_json`, `toml`, `serde_yaml`).
- `tests/` runs the library on concrete inputs, with closures standing in for
  the file system where a hook touches it.
- `app/` is the command-line tool: argument parsing, configuration files,
  the real file-system, process, git and HTTP access, and printing.
