# ComputeQuiet

A desktop utility that parks background work (noisy services, known
background programs, the power plan, the file cache) so that a game or a
local model run can have the machine, and then puts everything back.

The decisions are a library verified with Verus; the desktop shell around
it is ordinary Rust.

## Layout

- `src/` — the verified library (`computequiet`).
  - `policy`, `profile`, `catalogue`, `settings`: what may be touched, the
    default targets, user preferences and their validation.
  - `plan`: from profile, snapshot and capabilities to ordered steps and
    skipped targets with reasons.
  - `journal`: what was done, and the undo steps, newest first, one
    relaunch per executable.
  - `recommend`: what a scan of the machine suggests, safest and biggest
    first.
  - `platform/`: the parsing and decisions of the Windows, Linux and macOS
    adapters, and an in-memory machine whose laws (each change undone by
    its inverse) are proved.
  - `shell/`: the engine as a state machine (quiet run, restore,
    recovery), tray, autostart, assistant arguments and replies, and the
    proof that a quiet run followed by a restore puts the in-memory machine
    back.
- `tests/` — tests of the library on concrete values.
- `app/` — the desktop shell: window and tray, file I/O, subprocesses,
  system calls, and the loop that performs the engine's steps on the
  platform and writes the journal after each one.
