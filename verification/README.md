# ozone_api

The core of the Ozone chat server (a self-hosted, Discord-like service), verified with
Verus, and the server binary around it.

- `src/` — the verified library. The server's rules are functions here with
  `requires`/`ensures` contracts: effective permissions (guild base, channel overwrites,
  direct messages), resumable gateway sessions (numbering, replay buffer, grace period),
  presence, rate windows, validation of every request body, relationships, invitations,
  roles and moderation hierarchy, scheduled events, message posting rules, auto-moderation,
  search planning, attachments, and the credentials of accounts (Argon2 hashes, refresh
  tokens). Laws that span several functions are public `proof fn`s named `law_*`.
  The calls into `argon2`, `sha2`, `base64`, `serde_json`, a few `std` string functions
  and the system clock sit behind small trusted wrappers in `crypto.rs`, `guild.rs`,
  `text.rs` and `db.rs`, each documented with what it claims.
- `tests/` — tests of the library on concrete values.
- `app/` — the HTTP and WebSocket server (axum, tokio, sqlx/SQLite): it reads requests and
  the store, asks the library what to do, and performs it. It serves part of the routes
  whose rules the library holds; the floating-point token-bucket limiter of
  `app/ratelimit.rs` is the one rule kept there.
