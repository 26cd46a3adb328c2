# Lokin

A command-line focus timer for one finite block of work at a time: choose a goal and a budget in
minutes, work, note what happened, and let a language model propose a plan if you like. The deadline
is hard: pauses never move it.

Everything that happens is an event in a log that only grows. A session is what its events add up
to, and a command is a function from the log to the events that it adds.

## Layout

- `src/` is the library. Every function states in its contract what it returns, and Verus proves it.
  - `session`, `replay`: events, plans, and what a log says of its sessions at a given instant
  - `commands`: starting, pausing, noting, resuming, stopping, planning
  - `history`, `render`: what the user reads
  - `llm`, `dialogue`: asking a model for a plan, and the user for an opinion of it
  - `storage`: how the log is laid out in lines, and how it is read back
  - `laws`: what holds of all of this together
  - `text`, `time`, `error`: what the others are built from
- `tests/` runs the library on given values.
- `app/` is the program around it: arguments, files and locks, the terminal, the network.

## What is taken on trust

A few functions of `chrono`, `uuid`, `serde_json` and the standard library are called through small
wrappers whose contracts are stated, not proved: the clock, dates in RFC 3339, random and printed
UUIDs, JSON strings, lower case, and the joining of paths. Each says in its comment what it claims.
