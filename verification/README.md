# dreamvault

The core of a retro-game library manager, verified with Verus: it scans
game folders into a library (disc sets, archives, title ids), reads the
formats games ship in (ISO 9660 volumes, PARAM.SFO tables, ZIP directories),
plans launches and save-state moves for RetroArch and standalone emulators,
writes controller profiles into each emulator's own configuration format
(INI sections, flat `key = value` files, Mednafen and mGBA settings) without
disturbing the bytes around them, matches metadata and achievements, and
runs community plugins as sandboxed, fuel-metered WebAssembly.

Layout:

- `src/` is the verified library. Each public function states what it
  returns in its `ensures`, over spec functions and views; the `law_*` proof
  functions state properties that span several calls. Calls into outside
  crates (`wasmi`, and a few functions of std) go through small wrappers whose
  contracts are trusted, each with a doc comment saying what it claims.
- `tests/` runs the library on concrete values.
- `app/` is the program around it: directory walks, file and network I/O,
  serde copies of the library's types, and the loops that act on the
  library's decisions.
