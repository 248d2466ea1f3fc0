# herdr: web bridge and fleet switching

`src/` is the verified library. It decides; it does no I/O.

- `src/web/`: `herdr web`, the bridge from a terminal in the browser to a herdr
  client. Command line and environment (`args`), the guards on starting
  (`startup`, `funnel`), the same-origin check (`origin`), static files
  (`asset`), and the course of a WebSocket session (`session`).
- `src/peers/`: the fleet. The host's name (`host`), the data that hosts exchange
  (`model`), the federated summary (`summary`), and leaps to another server
  (`switch`).
- `src/text.rs`: text helpers, over sequences of characters.

`app/` performs what the library decides: sockets, PTYs, commands, JSON. `tests/`
runs the library from outside.
