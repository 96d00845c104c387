# Signal Fish server

An in-memory WebSocket signaling and relay server for multiplayer rooms. Its
decisions are a Verus library: who may connect, who is routed where, which
frames are relayed and how they are stamped, what a full queue costs its
connection, and what the periodic cleanup may touch.

## Layout

`src/` is the verified library.

- Connections: `connection`, `connection_manager`, `close`, `clock`,
  `identifiers`, `concurrent_maps`, `errors`, `durations`.
- Routing and delivery: `routing`, `routing_gates`, `delivery`, `player_sends`,
  `broadcast`, `room_transaction`, `relay_projection`, `relay_fanout`,
  `relay_stamps`, `relay_budget`.
- The server: `protocol`, `config`, `server`, `server_clients`,
  `message_router`, `messaging`, `game_data`, `heartbeat`, `authority`,
  `unregister`.
- Maintenance: `cleanup_task`, `maintenance`, `missing_rooms`,
  `dashboard_cache`.

`app/` is the process around it: socket queues, async locks, timers, storage
and service interfaces, and the loops that carry the library's steps out.

`tests/` runs the library on concrete values.

## How to read it

Each table has a mathematical view, and each operation states the view after it
as a function of the view before it. Work that waits, such as a delivery, a
broadcast, or an unregistration, is a step function: it takes what has been
observed so far and says what to do next. The caller does that, records the
answer, and asks again. Proof functions named `law_*` state what holds across
operations.

Durations and moments are nanoseconds. Functions that read the clock have a
twin, named `*_at`, that is handed the moment instead.
