# rubic

The decision logic of Rubic, a wallet for the Qubic network, written in Verus
with its behaviour stated in `requires` / `ensures` contracts and proved.

- `src/` is the verified library: RANDOM provider sessions (`judge`,
  `session`, `step`, `session_store`), settling and resending transfers
  (`confirm`, `broadcast`, `transfer_store`), keeping the peer set within bounds
  (`peer_upkeep`, `tick_watch`), fair round-robin polling (`rotation`), the
  order-book monitor (`monitors`, `book_watch`, `qx_store`), byte records kept
  as base64 (`records`), the HTTP routes' checks and answers (`routes`), and
  the text of numbers, hex and base64 (`text`, `hex_text`, `base64_text`).
  Laws that span several calls are public proof functions beside the code
  they speak of.
- `tests/` runs the library on concrete values.
- `app/` is the HTTP server over the wallet's SQLite database: it opens the
  database, runs the library's statements and serves the routes that need
  nothing beyond the database.
