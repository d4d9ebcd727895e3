# sametime

The verified core of a synchronized watch-party service: rooms and their
members, the decisions of a room's WebSocket session, account and room
password checks, upload checks, server settings, and the desktop client's
file fingerprint and mpv commands.

- `src/` — the library, verified with Verus. Each public function states
  its behaviour in `requires`/`ensures`; the `law_*` proof functions state
  properties that span several operations.
- `tests/` — tests of the library on concrete values.
- `app/` — the HTTP/WebSocket server (axum, sqlx) and the desktop client's
  I/O around the library.
