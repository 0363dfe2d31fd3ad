# axum_rtc

Room and signalling logic of a small WebRTC SFU server (Axum + mediasoup),
written in Verus.

- `src/` — the verified library: rooms and their peers (`room`, `rooms`,
  `peer`), the per-room registry of peer message channels (`channels`), the
  signalling exchange that answers each request (`signaling`), the end of a
  peer's session (`session`), UUID identifiers through the `uuid` crate
  (`ids`), and the properties that span operations (`laws`). Media objects of
  the SFU are carried as opaque handles; the library decides, the caller
  performs.
- `app/` — the server: Axum routes and WebSocket sessions, the mediasoup
  worker and router, JSON (de)serialisation, and the SFU work each exchange
  asks for.
- `tests/` — scenarios run against the library.

Environment: `HOST`, `PORT`, `ANNOUNCED_IP` (public address announced by
mediasoup); UDP ports 10000-10100 must be reachable.
