# racer

Game rules and Telegram mini-app authentication for the racer service,
written in Verus.

- `src/` is the verified library:
  - `shared/handle_gas_timing.rs`: the refill clock of a player's gas tank
    and the sweep over idle sessions, with laws on capacity and refill
    period;
  - `handlers/gas_channel.rs`: a connected player's session (clock ticks,
    guessing rounds, closing), the tank restored at connection time, and
    the level and streak formulas;
  - `telegram/validate.rs` and `telegram/data_check.rs`: the check of the
    signed `initData` that a mini app sends (data-check string in byte
    order, HMAC-SHA-256 signature, lower-case hex), with the law that the
    order of the fields does not matter;
  - `telegram/command.rs`, `shared/read_env.rs`, `shared/hmac256.rs`,
    `extractors/`, `error.rs`: bot replies, configuration errors, HMAC and
    the shared types.
- `app/` is the service around it: HTTP and WebSocket handlers (axum),
  Redis and database access, JSON, and the Telegram bot.
- `tests/` exercises the library on concrete values.
