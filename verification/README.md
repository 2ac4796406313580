# plexpaper

A proxy that keeps a Minecraft server asleep while nobody plays. It answers status
requests itself, starts the server when a player logs in, kicks, holds or forwards that
player until the server is up, and stops the server again once it has been idle.

## Layout

- `src/` is the library, verified with Verus. It holds the proxy's decisions and formats:
  - `types.rs`, `proto/`: VarInts, packet framing and compression, the fields of the
    handshake, login start, status and disconnect packets, and what the proxy does with each
    packet of a client it serves;
  - `server.rs`: the tracked state of the server and every change to it (starting, stopping,
    sleeping, killing, crashing), with the laws those changes keep;
  - `status.rs`, `join.rs`: the status answered while the server sleeps, who may log in,
    where a connection goes, and how a joining player is occupied;
  - `config.rs`, `action/`, `mc/`, `watch.rs`, `shell.rs`, `text.rs`, `util/`: the
    configuration, `server.properties`, bans, whitelists, favicons, offline UUIDs, the server
    command line, and error messages.
- `app/` is the program around it: sockets, the server process, signals, files and JSON.
- `tests/` runs the library on concrete values.
