# dpdk_net_core

A user-space TCP stack on a polled network port, with its decisions verified by
Verus.

- `src/` is the library: frame and header codecs (`l2`, `l3_ip`, `arp`,
  `tcp_options`), the state of a connection (`tcp_conn` and its queues and
  timers), and the engine (`engine*`), split by what it reacts to. The library
  is handed the time, the frames and the fate of each transmission. What takes
  a transmission or more is a stepper that returns the next action: an
  iteration of the loop (`engine_loop`), a segment taken in (`engine_segment`),
  a connection that the peer opens (`engine_accept`), a timer that fired
  (`engine_fire`), a retransmission (`engine_resend`), and what the application
  asks for (`engine_request`).
- `app/` drives the library: it reads the clock and the system's files, and
  performs the actions on a port behind the traits `Port` and `Protocol`.
- `tests/` runs the library on concrete values.

Functions named `law_*` state what holds across several operations.
