# exchange

The core of a low-latency crypto exchange, verified with Verus: the
fixed-capacity object pool; the per-instrument limit order book (price
levels in price priority order, each a FIFO of resting orders, matched in
price then time priority, with cancels) and the matching engine that
feeds it; the little-endian wire frames that cross
the message bus, the gateway's order service and publisher, and the
reference-data checks of the markets service.

- `src/` is the verified library. Its functions are stated over
  mathematical models of their data (`PoolView`, `BookView`, byte
  sequences); the public proof functions state what holds across
  operations. Where an answer comes from the transport (a poll, an offer of
  a frame), the contracts speak of it through the `Subscriber` and
  `Publisher` traits, whose implementations say which answers they give.
- `tests/` runs the library on concrete values.
- `app/` is the process around it: threads and run flags, the UDP multicast
  transport, command-line and environment settings, the markets file, and
  the serde shapes of the client API.

The Postgres layer of the instruments and markets services (creating the
database, its migrations, and the asset and market repositories) is not
part of this crate: its queries are checked at build time against a live
database or its saved query data, and neither those nor the migration files
come with it. The markets file is parsed and checked here, and `app/`
prints the catalogue that would seed the tables.

Run `engine`, `gateway`, `gateway-send` or `instruments` as subcommands of
the binary built from `app/`.
