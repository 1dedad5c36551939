# tfs_core

The rules of a game server's core, verified with Verus: chat channels, containers and
the moves between them, conditions and their saved form, combat formulas and PvP checks,
monster spells read from monster definitions, player progression, server settings, the
kite and path scenario formats, the positions tile scripts name, and the lines of the
chase / combat trace.

- `src/` is the verified library. Each public function states in its contract what it
  returns or changes; laws that relate several functions are public proof functions
  (`lemma_*`).
- `tests/` runs the library on concrete values.
- `app/` holds what touches the process: running the configuration file with an
  embedded Lua interpreter, writing the trace file, reading scenario files.

Outside crates: `rand` (random rolls, called from `src/combat/rng.rs` through one
trusted wrapper) and `mlua` (the configuration file, in `app/`).
