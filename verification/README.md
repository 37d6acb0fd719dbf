# lamzuctl

Control utility for Lamzu gaming mice: a command-line tool, a Stream Deck
plugin and a desktop window, around a library whose logic is proved with
Verus.

## Layout

- `src/` — the verified library.
  - `protocol.rs`: the 64-byte HID request packets and the reading of the
    device's answers, with the "mouse not responding" detection.
  - `device.rs`: interface numbers of HID paths, deduplication of the
    enumerated interfaces, device selection and probing decisions.
  - `device_db.rs`: the database of known devices.
  - `types.rs`: the data types and their display forms.
  - `action.rs`, `image.rs`, `plugin.rs`: the Stream Deck plugin's buttons
    (titles, cycling, key presses, battery-bar images, registered instances)
    and its command line.
  - `cli.rs`, `gui.rs`: texts and decisions of the command-line tool and the
    window.
  - `text.rs`: decimal and hexadecimal rendering, search and number parsing
    on characters.
- `tests/` — tests of the library on concrete values.
- `app/` — the programs: HID input/output through `hidapi`, the clap command
  line, the WebSocket event loop of the plugin, and the egui window. The
  packets, the readings, device selection, the buttons' behaviour and the
  loops' step decisions come from the library; `app/` waits on devices,
  sockets and timers, carries the decisions out, parses JSON, and lays out
  tables and widgets.

Each law of the library is a public `proof fn` next to the functions it
relates; the contracts of the functions state their results exactly.
