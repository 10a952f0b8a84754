# redis_server

A small Redis-compatible server. The library (`src/`) holds its logic with
Verus contracts: the RESP framing of requests, the decoder of commands
(`GET`, `SET` with its options, `ECHO`, `PING`, `INFO`; the replication
commands `REPLCONF` and `PSYNC` are not decoded, so they are not answered
and no database is sent to replicas), the key/value
store, the replies, and the replication handshake messages. Times are kept
as `DateTime<Utc>` holds them, whole seconds since the Unix epoch and
nanoseconds; reading the clock and date arithmetic go through `chrono`.

The program (`app/main.rs`) parses the command line with `clap`, accepts
connections, reads lines and writes the replies the library computes.

Layout of `src/redis/`:

- `text.rs`: trimming, keyword comparison, decimal numbers.
- `clock.rs`: the `chrono` calls, with what they are taken to do.
- `decoder.rs`: requests to commands.
- `store.rs`: the store, viewed as a map.
- `set_parse.rs`, `handle_input.rs`, `reply.rs`: answering requests.
- `replica.rs`: the handshake with a master.
- `laws.rs`: what holds across requests (read after write, `NX`/`XX`,
  expiry, which commands write).
