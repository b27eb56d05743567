# hotfix

A FIX (Financial Information eXchange) session engine for buy-side initiators,
verified with Verus.

## Layout

- `src/` — the verified library:
  - `message/` — the FIX tag=value model, its encoding (BodyLength, CheckSum),
    the exact reader (`parser::decode`), the session-level messages (Logon,
    Logout, Heartbeat, TestRequest, ResendRequest, SequenceReset, Reject,
    BusinessMessageReject) and message verification;
  - `session/` — the session engine: its states, the handling of every inbound
    message and timer, resends and gap fills, and the events of the connection
    loop (`engine.rs`), with each handler's effect named by a spec predicate;
    what it owes the writer, the schedule waiter and the application is queued
    for the runtime to deliver;
  - `session_schedule.rs`, `calendar.rs` — session schedules (daily, weekdays,
    weekly, non-stop) in IANA time zones;
  - `store/` — the message store interface, an in-memory store, and the text
    formats of the file store;
  - `transport.rs` — framing of the inbound byte stream and the writer's
    instructions;
  - `timestamp.rs` — the FIX UTCTimestamp text and the calendar arithmetic
    behind it;
  - `clock.rs` — the trusted calls into the system clock, `chrono` and `chrono-tz`.
- `app/` — the runtime around the library: `toml` configuration files, the file
  store, TCP/TLS connections and the tasks that drive a session. The file store is
  written outside verified code and does not claim the store contract
  (`MessageStore::spec_obeys`), so the session's proved guarantees cover sessions
  on a store that does, such as the in-memory one.
- `tests/` — tests of the library.
