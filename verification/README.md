# token_monitor

The verified core of a monitor for the token usage of coding assistants, and the program around it.

- `src/` is the library, verified with Verus. It reads sessions and messages into usage records
  (`atomcode`, `codearts`), puts scans and snapshots together (`scan`, `snapshot`, `stats`), holds
  the state of the monitor (`monitor`), and lays out the floating usage ball (`floating`, `region`,
  `ball`). Lengths are counted in millionths of a pixel, instants in milliseconds.
- `app/` is ordinary Rust around it: the file system, the databases, the threads, and, on Windows,
  the native windows. The desktop frontend on Windows also needs `gpui` and `gpui-component`.
- `tests/` runs the library from outside.

What the library takes on trust is in `json`, `clock` and `paths`: the JSON parser, the calendar and
the clock, and how the system reads paths.
