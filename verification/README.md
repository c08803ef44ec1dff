# backend_website

The backend of FinanciAr, a portfolio tracker: accounts with two-factor
login, positions and their ledger, price series, model trends and alerts,
weekly reports, and the team's retro board.

- `src/` is the library, written in Verus. Its public functions carry
  contracts and are proved against them, together with the private helpers
  they use: request validation, password and TOTP handling,
  session-token claims, ticker rules, the ledger replay, price-series
  selection, trend-alert decisions, mail texts, the retro board with its
  archive and undo, decimal text, and the two-factor life cycle. Calls into
  `argon2`, `regex`, `totp-rs` and the system clock go through small items whose
  contracts state what those crates and std document.
- `app/` is the server around it: `axum` routes, `sqlx` storage, HTTP calls
  to the price collector and the model services, `lettre` mail, token
  signing with `jsonwebtoken`, and the computations on floating-point prices.
- `tests/` exercises the library on concrete values.
