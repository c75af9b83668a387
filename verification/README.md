# dualterm

A local shell reachable from a browser: each WebSocket connection gets its own
pseudo-terminal running the user's shell, and bytes are relayed both ways.

- `src/pty.rs`: the terminal size, the command to run and the builder that
  spawns it, and the engine that hands out each end of a terminal once.
- `src/ws.rs`: the decisions of the relay between a client and its terminal,
  as a state machine, with its laws proved over whole sequences of events.
- `app/`: the server itself: opening terminals, spawning children, the
  threads that read and write the terminal, and the WebSocket loop that feeds
  events to the bridge and carries out its actions.

The project targets Unix-like systems (a login shell, `/bin/sh`, `stty`). The
contract on setting an environment variable of the terminal crate's command
builder compares keys as written, as that crate does on Unix; on Windows it
folds their case first.
