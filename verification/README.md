# vcp_daemon

A daemon that relays calls and media for the VCP protocol.

- `src/` is the verified library:
  - `receiver.rs`: `VcpReceiver`, which frames one VCP message at a time out
    of a byte stream (text messages `<action>( <arg>)*` ended by a line break,
    and packet messages `<action>/<nr><ts><len><data>`); its behaviour is the
    spec function `run` over the step function `step`.
  - `receiver_laws.rs`: what the receiver promises as a whole (chunked
    feeding, reset, the shape of what a whole message yields).
  - `jitter.rs`: `JitterBuffer`, the per-connection packet store with its
    counters and snapshot history, and the packet-loss count.
  - `daemon.rs`: the decisions the daemon's loops take on completed messages.
  - `bytes.rs`, `text.rs`: big-endian numbers, and UTF-8 conversion.
- `app/main.rs` is the program: sockets, timers, the client process, and the
  floating-point loss percentage.
