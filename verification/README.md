# blew

A cross-platform BLE (Bluetooth Low Energy) library: central and peripheral
roles, GATT, and L2CAP channels, on macOS, iOS, Android and Linux.

- `src/` is the library, verified with Verus. It holds what is decided,
  remembered and computed: who waits for which callback, what a platform's
  report means, what a request is answered, how a socket is secured and
  bridged, what an error says. It does no I/O; every wait and every call into a
  platform enters it as a plain value.
- `app/` talks to the platforms (CoreBluetooth, BlueZ, Android through JNI),
  runs the waits on Tokio, and offers the roles with their streams.
- `tests/` runs the library on concrete values.

| Module | What it holds |
|---|---|
| `types`, `uuids`, `gatt`, `error` | identifiers, UUIDs, services, errors and their words |
| `central`, `peripheral`, `ready`, `plugin` | configuration, events and requests of the roles |
| `l2cap` | tuning, security and ends of L2CAP channels |
| `util` | the slots, queues and gates between callers and callbacks |
| `platform` | the rules of each platform |
| `testing` | an in-memory link between both roles |

The outside calls that the library makes are few and small: each stands in a
function of its own whose comment says what is taken on trust. They are to
Tokio's channels, semaphore and notifications, to `uuid` and `serde_json` for
reading text, and to a handful of standard functions on strings and durations.
