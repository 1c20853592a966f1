# polymarket_rn2_bot

The verified core of a prediction-market trading bot.

`src/` is the library, verified with Verus:

- `order/paper_executor.rs` — the paper-trading account: buys and sells against a cash balance,
  one position per market, token and side; every order's effect is stated by `buy_outcome` /
  `sell_outcome`. `order/paper_laws.rs` proves what holds of every order (refusals change
  nothing, the count of buys, well-formedness, a consistent account, buying and selling back
  restores the balance, and the balance over a run of orders).
- `decimal.rs` — amounts as mantissa and scale, with `rust_decimal` arithmetic behind trusted
  wrappers whose results are exact where the operands allow it and keep the sign of the exact
  result where they are rounded.
- `json.rs` — JSON documents as plain values, read from text with `serde_json`; `client/*`
  decodes the feeds' text messages, picks the venues and addresses of connections, and keeps
  the latest price time per token and the latest report per match in `dashmap` maps.
- `text.rs`, `ai_client.rs` — Unicode whitespace trimming and splitting, and the texts tried as
  the probability in a model's reply.

`app/` holds the network clients, the trade log and the saving of the paper account, which call
the library.
