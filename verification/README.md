# cs2_killtimer

A kill-streak timer overlay for Counter-Strike 2: after each kill a counter
shows the seconds since the streak (re)started, colored by band, over the
game window. The game is only read, never written.

## Layout

- `src/` — the verified library (Verus):
  - `memory.rs` — addresses in the game process and typed little-endian reads
    through a reader closure supplied by the platform layer;
  - `game.rs` — entity list, local player, kills, weapon, life, team, round
    state and living enemies, each with a contract naming every result the
    reads could lead to;
  - `kill_timer.rs` — the worker as a state machine (`KillTimer::step`) and the
    reads of one observation (`observe`);
  - `weapons.rs` — the weapon table, lookup, display names, classification;
  - `handles.rs` — the decisions of the search for a handle to the game held by
    another process: the system handle table's entries, which of them grant
    the wanted access, when to grow the table buffer, the search for the first
    donor whose handle checks out, which memory regions to scan, and the step
    of the region walk that finds the first slot holding the handle (the
    system calls themselves are not part of the program);
  - `offsets.rs` — assembling the offsets from the offset and class-schema dumps;
  - `overlay.rs`, `render.rs` — overlay decisions and the integer part of
    drawing the timer text (outline, premultiplied BGRA);
  - `state.rs`, `settings.rs`, `text.rs` — shared overlay state, constants,
    text helpers (ASCII case, search, decimal, trimming, UTF-16).
- `app/` — the Windows program around it: process attach and memory reads,
  HTTP download of the dumps, font rasterization, the layered window and the
  two loops.
- `tests/` — tests of the library.
