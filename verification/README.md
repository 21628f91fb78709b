# guestbook

The request-handling logic of a guestbook service (public messages, file
attachments, an admin panel with HMAC-signed tokens), written in Verus with its
contracts proved.

- `src/` — the verified library
  - `routing.rs`: which handler a request reaches (CORS preflight, pages, public
    API, admin API behind the bearer-token check), message-id parsing
  - `jwt.rs`: issuing and verifying HS256 tokens that expire after 24 hours
  - `auth.rs`: the admin login check and the `Authorization` header check
  - `messages.rs`: validation of new messages
  - `attachments.rs`: upload limits, storage keys, download checks and headers
  - `api.rs`: the API errors with their statuses and messages; stored flags
  - `codec.rs`, `crypto.rs`: base64, hex, percent-decoding, JSON claims,
    HMAC-SHA256, constant-time comparison and random bytes, through the crates
    that implement them
  - `text.rs`: string helpers (trimming, searching, decimal formatting)
- `tests/` — tests of the library on concrete values
- `app/` — the Cloudflare Worker: bindings, D1, R2, JSON responses
