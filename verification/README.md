# player_connect

A relay server for Mindustry's PlayerConnect protocol: hosts open rooms,
players join them, and the server carries game traffic between each player
and the host of its room over TCP and UDP. An HTTP side lists the rooms as
a server-sent event stream and serves a page per room.

The logic is a library verified with Verus; the program around it does the
I/O.

## Layout

- `src/` — the verified library.
  - `codec.rs`: big-endian integers, length-prefixed UTF-8 strings, and a
    read cursor over a payload.
  - `packets.rs`: the packets of the protocol, how they are read and written;
    reading a written packet gives it back.
  - `constant.rs`, `error.rs`, `models.rs`: wire codes, errors, room stats
    and room views.
  - `rate.rs`: a sliding-window rate limiter; for requests at times that
    never go back, starting from a fresh limiter, no window admits more
    than its limit.
  - `maps.rs`: the `dashmap` maps that hold them, behind the operations used.
  - `state.rs`: rooms, connections and UDP routes. Operations return their
    outgoing messages as effects instead of sending them.
  - `connection.rs`: what one connection decides for each frame, packet,
    action and tick.
  - `proxy.rs`: connection ids, routing of UDP datagrams, and what is
    forgotten when a connection ends.
  - `http.rs`: room pages, the game port, and room-list events.
  - `config.rs`: the ports, read from text.
  - `utils.rs`: the clocks: the wall clock that rooms record their times
    by, and the monotonic clock that the rate limiter counts by.
- `tests/` — tests of the library on concrete values.
- `app/` — the executable: tokio listeners, one task per connection that
  carries out the effects the library returns, the axum HTTP server, JSON.

Configuration: `PLAYER_CONNECT_PORT` (default 11010) and
`PLAYER_CONNECT_HTTP_PORT` (default 11011), from the environment or `.env`.
