# prologger

A logging library with level filtering, per-module overrides, `RUST_LOG`-style
configuration, pretty/compact/JSON formatters, console sinks and size-based
file rotation, written in Verus.

- `src/` is the library. Every decision it makes is stated in a contract and
  proved: how configuration strings parse, which records pass a filter (the
  longest configured module wins), what each formatter writes for a record and
  a time, how days since the epoch map to calendar dates, which file
  operations a rotation performs and what they do to the files, and what a
  builder hands to the logger it builds. Laws that span several functions are
  public proof functions named `law_*`.
- `app/` performs what the library decides: it installs a logger behind the
  `log` facade, reads the environment, writes files, talks to
  syslog and the network, runs the background worker thread, and adapts
  `tracing` events.
- `tests/` runs the library on concrete values.
