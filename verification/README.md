# pathvectord

The state and the rules of a BGP daemon, written in Verus. The library decides what an event of a
session, an operator's command, a kernel route change or a timer means for the daemon: which routes
are stored, which are handed to the decision process, what each peer is shown, what the kernel is to
hold, and when a session has to end. Every function states what it does over mathematical views of the
tables, and Verus proves it.

- `src/` is the library. `state.rs` holds the tables and their view; `session.rs`, `inbound.rs`,
  `update.rs` and `restart.rs` follow a session from its start to its end; `propagation.rs`,
  `delivery.rs` and `work.rs` say who is told what, and when; `origination.rs` is for the routes of the
  daemon itself; `fib.rs` for the kernel; `control.rs` for commands and events; `laws.rs` for what holds
  across all of them.
- `tests/` runs the library with a small decision process and export engine around it.
- `app/` is the ordinary Rust around the library: the event loop, the channels, the files and the
  listener. The decision process, the export engine, the sessions and the kernel come in through traits.

Time is an argument everywhere, and no function of the library performs I/O.
