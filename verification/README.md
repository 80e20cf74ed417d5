# tg_opossum

A Telegram bot that answers with opossum pictures and hisses.

- `src/` is the verified library (Verus): the configuration types, the
  message filters and the routing of ordinary messages (`filters`,
  `routing`), the command decisions and reply texts (`handlers`), the choice
  of a picture file against the ban list (`images`), and the text helpers
  they rest on (`text`, `util`).
- `app/` is the program around it: reading the TOML configuration, the
  Telegram dispatcher (teloxide), the picture directories and the
  PostgreSQL database (diesel).
- `tests/` runs the library on concrete values.

`Cargo.toml` pins `takecell` to 0.1.1. The crate itself does not use it: it
is a dependency of `teloxide-core` 0.9, whose newest release (0.1.2) needs
rustc 1.96, while this project builds with rustc 1.95.
