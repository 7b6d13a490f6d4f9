# MEXC Lag Monitor

A monitor that checks whether price moves on Binance USD-M futures lead the same symbols on MEXC
futures. The library under `src/` is written in Verus: what each function returns or changes is
stated in its contract and proved. The program under `app/` connects it to the exchanges, the files,
the dashboard and the bot.

## The library

- `quotes`: the messages of both exchanges, and the quotes in them.
- `monitor`: a quote comes in; a move on Binance is noted, and how long MEXC takes to follow it.
- `alert`: the difference between the exchanges, what the subscribers are told about it, and when a
  trade is asked for.
- `trade`: signed requests, orders, and the way of a trade from its opening to its end.
- `stats`, `report`, `csv`, `trade_stats`: what is counted, shown and written, and what is read from
  the files again.
- `config`, `auth`, `telegram`, `web`: the settings, the access to the dashboard, the bot.
- `decimal`, `json`, `text`, `table`, `clock`, `state`: what these rest on. Arithmetic is that of
  `rust_decimal`, JSON that of `serde_json`, the hashes are those of `argon2` and `hmac`, the time is
  that of `chrono`; each of these calls has a contract that says what is taken for granted.

Proof functions beside the code state what holds of the whole: that an open trade always belongs to
a difference that is watched and is closed with it, that counts add up, that what is saved is read
back, that an address is blocked after five failures, and more.

## Output files

- `lag_events.csv`: moves on Binance that MEXC followed, with the lag.
- `stats_snapshots.csv`: statistics of each symbol, again and again.
- `slippage_events.csv`: for the same moves, what a trade that crosses the spread at MEXC would have
  brought, before and after fees.

## Settings

`config.json` holds the symbols, the thresholds and the fees. `telegram_config.json` or the
environment holds the secrets. Without keys, or with `trade_enabled` off, nothing is traded.
`--add-user` adds a user of the dashboard, which is served from `dashboard.html`.
