# valorant-watcher

Watches the Riot client on this machine and forwards what a player does to a
server: account data at a fixed interval, the match that is set up, the loadouts
of the match that is played, and each change of state.

`src/` is a library of the rules, verified with Verus. It knows no network, no
files and no clock: a flow that has to wait for something is a step from what is
held and what has happened to what is held then and what is to be done.

- `text`, `json`, `encoding`, `pattern`, `http`, `clock`: plain values and what
  is read from them.
- `lockfile`, `paths`, `config`, `hardware`, `updater`, `error`, `events`: what
  the machine and the settings say.
- `backend`, `token_flow`, `login`: the server, its tokens, and the login in the
  browser.
- `session`, `fetch`: the player's session with Riot's services.
- `session_service`: the session in which states are reported to the server.
- `watchers`, `ws`, `dedup`, `orchestrator`: what is noticed, collected and
  forwarded.

JSON, SHA-256, Base64, regular expressions and UUIDs are computed by the crates
that are known for them. What the proofs take for granted about these crates is
written above the functions that call them.

`app/` is the program around the library: it sends the requests, reads the
files, sleeps, and hands back what happened. `tests/` runs the library.
