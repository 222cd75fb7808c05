# colonist

The game logic of a browser client for a Catan-style board game, written in
Verus: every function in `src/` carries a contract, and Verus proves the
code meets it.

## Layout

- `src/rules.rs`, `src/protocol.rs`, `src/stats.rs`: the values the client
  and the server exchange, the rules each table size plays by, and the
  end-of-game statistics.
- `src/client.rs` and the modules it feeds (`events.rs`, `trades.rs`,
  `payout.rs`, `narration.rs`, `banklog.rs`, `dispatch.rs`): the client's
  model of a game, and what each server message does to it.
- `src/board.rs`: hex geometry, corners and edges, and where a settlement,
  city or road may go.
- `src/controls.rs`, `src/lobby.rs`, `src/flight.rs`, `src/hand.rs`,
  `src/art.rs`, `src/logtext.rs`, `src/charts.rs`: what the screen decides — which
  controls are live, what a click asks of the server, how the discard
  countdown runs, how the log reads, which artwork and colour stand for what.
- `src/laws.rs`, `src/readback.rs`, `src/bids.rs`: properties that span
  calls, each a proof function.
- `tests/`: tests run against the compiled library.
- `app/`: the browser side that Verus does not see — the websocket session,
  local storage, the JSON wire format, and the floating-point screen layout.
