# dsh_studio

The decision logic of DSH Studio, a desktop window around a locally running
`dsh web` backend, verified with Verus.

- `src/supervisor.rs` — the backend supervisor as a state machine: boot on a
  free loopback port, probe, serve, watch, and restart with a backoff that
  doubles from one second up to thirty. Laws about the backoff schedule, the
  boot round, crashes, missing backends, quitting, the order of page events
  and one backend at a time are proved there.
- `src/launch.rs` — which program starts the backend, its arguments, its
  address and the tray tooltip.
- `src/log.rs` — the capped output log and the tail shown after a crash.
- `src/menu.rs` — the profile choices, menu and tray item ids, and which pages
  stay inside the window.
- `src/probe.rs` — waiting for a fresh backend to accept connections, with a
  law over a whole probe.
- `src/text.rs` — decimal rendering, text comparison, and the byte order in
  which profiles are listed.
- `app/lib.rs` — the Tauri shell that carries out the library's decisions:
  processes, sockets, files, window, menus and tray.
