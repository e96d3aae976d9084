# rho

The rules behind the Rho desktop workbench for R, as a Verus library: agent
model settings and their validation, startup and runtime probing decisions,
project file rules and the bounded project listing, the workspace plugin
lifecycle journal, the extension runtime's scope lifecycle and effect disposal,
the Wasm guest host protocol, plugin package trash moves, run and agent-turn
records, and the agent transport's frame and token checks.

- `src/` is the verified library. Each module states its rules as `requires` /
  `ensures` contracts over spec functions, and the laws that span several calls
  as public proof functions.
- `tests/` runs the library on concrete values.
- `app/` is the command-line program around it: files, SQLite, the R
  processes, and the settings file's JSON form.
