# ropds

The verified core of a personal e-book catalogue served over OPDS: reading
book metadata (EPUB, MOBI, INPX indexes, ZIP archives), the decisions of a
library scan, catalogue bookkeeping, OPDS Atom feeds, and the request helpers
of the web pages (sessions, sign-in gates, OAuth sign-up steps, book edits,
search). Each function states its behaviour in `requires` / `ensures` and is
proved by Verus.

- `src/` — the library, verified; calls into outside crates (zip, quick-xml,
  image, mobi, argon2, hmac/sha2, base64, hex, urlencoding, rand) go through
  small trusted wrappers whose contracts are written from those crates'
  sources.
- `tests/` — tests run against the compiled library.
- `app/` — a command-line program that reads `config.toml` and runs a
  one-shot library scan (`--scan`) over the file system, with the scan's
  decisions taken by the library.
