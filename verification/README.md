# ohrs

`ohrs` builds Rust libraries for OpenHarmony: it prepares the NDK
toolchain and environment, runs cargo for each target architecture, collects
the shared objects a build produced together with the runtime libraries they
need, and packages them.

The crate is split in two.

- `src/` is the library, verified with Verus. Every public function states
  in its contract what it returns; the laws of the library (what every state
  of the runtime-library resolver keeps, the closure a finished resolution
  reaches, the stability of a normalized `SONAME`, and others) are public
  proof functions. Work that touches the machine (running processes,
  reading the file system, the clock, the environment) is left to the
  caller: the library takes what that work found as plain values.
  - `resolver` is the runtime-library resolution as a state machine: the
    caller performs each action it asks for (identify a file, read its
    needed libraries, probe candidate paths) and reports back; `ledger`
    states and proves the closure a finished resolution reaches.
  - `toolchain`, `native_env`, `atomic`, `build_plan`, `cargo_plan`,
    `workspace`, `artifact_plan` compute paths, environments and command
    lines for `ohrs build`, `ohrs cargo` and `ohrs artifact`.
  - `needed`, `search`, `runtime`, `soname`, `paths`, `text`, `envmap`,
    `hash` hold the parsing and the path, string and map rules the rest is
    stated in.
  - `doctor`, `init_plan`, `publish`, `cli`, `options` serve the other
    commands; `ark`, `module_load` and `ohos_setup` the runtime side.
- `app/` is the command-line program around the library: argument parsing,
  processes, files and the archive formats.
- `tests/` exercises the library on concrete values.
