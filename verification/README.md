# telebots

The core of a Telegram bot framework and its data-provider clients, with
the behaviour of each function stated as a contract and proved by Verus.

- `src/` is the verified library: text blocks and their rendering
  (`blocks`), command tables built from a command enum's declaration and
  the parsing, `/help` and menu derived from them (`command`), the reply
  model and the single send point (`reply`, `dispatch`), scheduled
  delivery (`scheduler`), runtime metrics (`metrics`), the built-in
  commands (`builtin`), the bot's configuration and run order (`bot`),
  and the decisions of the CoinMarketCap, CoinGecko and Cloudflare
  Workers AI clients (`cmc`, `coingecko`, `cloudflare`, `json`).
- `app/` is the runtime around it: the teloxide dispatcher, the tokio
  supervisor and scheduler loops, the axum health server, tracing, and
  the HTTP calls. Each of its steps asks the library what to do.
- `tests/` exercises the library on concrete values.
