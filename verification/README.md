# Agent Kanban

A keyboard-only terminal Kanban board with five columns (Capture, To Do,
In Progress, Review, Done) and an optional agent dispatcher that picks To Do
cards one at a time and files the agent's answer back on the card.

The board's logic is written in Verus and proved against its contracts; the
terminal, the file system, the clock and the agent's process are driven by a
thin ordinary-Rust layer around it.

## Layout

- `src/` — the verified library.
  - `text.rs`: character-level string work (trimming, truncation, cursor
    positions as line/column, decimal text).
  - `clock.rs`: RFC 3339 timestamps from Unix seconds.
  - `model.rs`: statuses, cards, their agent log and the board; the
    three-column layout with its run records and their recovery after a crash.
  - `dispatch.rs`: dispatcher settings, the agent's prompt and command line,
    the stub agent, the wait loop's decisions and the reading of the agent's
    JSON reply.
  - `app.rs`: the application state and every key, tick and outcome as a
    state transition, each stated over a mathematical view of the state.
  - `screen.rs`: the texts the screen shows.
  - `laws.rs`: properties that span several transitions (nothing is left
    In Progress after a load or a quit, failed cards cool down, selection stays
    in its column, every board change asks for a save, the cooldown list
    never holds an id twice, ...).
- `tests/` — tests of the library on concrete values.
- `app/` — the program: terminal loop, JSON file storage, environment and the
  agent's subprocess.
