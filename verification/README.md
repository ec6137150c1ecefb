# rtop

A terminal system monitor: CPU, memory, disks, network interfaces,
processes and Docker/Podman containers, with panels for the services a
process may be (databases, HTTP proxies, Node.js, message brokers).

The crate has two parts.

- `src/` is the library, verified with Verus. It holds what the monitor
  decides and parses: the readers of the kernel's text files (`/proc/stat`,
  `/proc/diskstats`, `/proc/net/dev`, `/proc/net/snmp`, pressure files) and
  of its socket diagnostics replies, port discovery from command lines and
  container port mappings, HTTP and WebSocket framing, the Node.js
  inspector's JSON replies and the engine's `/nodes` reply (read through
  `serde_json` and `bollard` behind trusted wrappers), the InnoDB status
  text, the proxy status and metrics pages, the broker metrics page, the
  container counters, the
  stable orderings of the process, container and swarm service tables,
  bounded sample histories (including the Node.js and proxy panels'), the
  colour palettes of the eight themes, link capacities and which interfaces
  count toward the all-interfaces total, the answers of the interactive setup
  (`setup.rs`), and the state machine behind the key presses (`app.rs`).
  Each public function states its result in its contract; the `law_*` proof
  functions state properties that span several calls.
- `app/` is the program around it: the terminal, the background collection
  through `sysinfo`, `bollard`, `tokio-postgres` and netlink sockets, the
  configuration file, and the drawing with `ratatui`. Fractional values
  (percentages, rates) are computed there.

`tests/` runs the library on concrete inputs.
