# openusage

Multi-machine sync for OpenUsage: agents on each machine push their AI-usage
snapshots to a relay under a shared sync token, and the dashboard pulls every
machine's latest snapshots back.

`src/` is the verified library (Verus):

- `relay` — the relay's store: one room per token, one entry per machine, at most
  120 machines per token, read-after-write, deletes, and the daily eviction of
  machines that went quiet; the laws about these operations are proof functions here.
- `wire` — the pushed and pulled types, with views and exact copies.
- `clock` — RFC 3339 timestamps through the `time` crate.
- `token` — sync tokens from `uuid` v4 values.
- `agent`, `doctor`, `paths`, `endpoints` — the agent's settings, identity, plugin
  selection, readiness report, diagnostic tally, file locations and relay URLs.
- `text`, `keyed` — string rules (trim, prefixes, byte order, `u16` parsing) and the
  lemmas that read a keyed vector as a map.

`app/` holds the programs around it: the axum relay server, the agent's command
line and HTTP/file work, the dashboard's relay client, the proxy hook and the
tray panel. `tests/` exercises the library.
