# release_plz_core

The decisions behind releasing the packages of a Cargo workspace, as a verified library: which
packages take part in a release, which dependencies have to follow an updated package, which
releases a project is compared with, how a directory is copied with its Git metadata and its
tracked files, and what a check of the public API comes to.

- `src/` is the library. Its functions carry contracts that Verus proves. Where a task alternates
  between decisions and the outside world, the decisions are a state machine: `start` gives the
  first action, and `step` takes what came of an action and gives the next one.
- `app/` is ordinary Rust around it. It performs the actions: it reads and writes files and calls
  Git, Cargo and the registries.
- `tests/` runs the library on concrete values, and the copies on a real file system.

Paths are UTF-8 text and are read by `camino`, TOML by `toml_edit`, JSON by `serde_json`.
