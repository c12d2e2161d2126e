# bevy_webgate

Multi-port web servers for a Bevy application, with the server lifecycle proved in Verus.

- `src/` is the verified library: the registry of servers by port (`manager`), one
  server's state and retry rules (`server`), its tasks and connection counters
  (`runtime`), server states (`status`), the error model and how ECS access failures
  are reported (`error`, `access`), static-asset rules and path sanitizing (`assets`),
  text helpers (`text`), and the laws that relate the operations (`laws`).
- `app/` is the Bevy and network side: plugins, ECS resources and systems, the
  listener and connection tasks, the bind test, file serving and the `App` extensions.
  It hands the library plain values (clock readings in milliseconds, error texts,
  bind-test results) and performs what the library decides.
- `tests/` runs the library on concrete values.

Times are milliseconds on the application's monotonic clock; IP addresses are kept
as their bits.
