# peeker

A self-hosted file manager for home servers. This crate holds the decisions the
server makes on every request, with their contracts proved by Verus:

- `paths` — Unix path components, `join`, and the check that keeps a requested
  file inside the served directory.
- `auth` — session claims (24-hour lifetime) and the `Authorization: Bearer`
  header; `auth::auth` — Argon2 registration and login, and the `auth_token`
  session cookie.
- `catalog` — paging through stored files, listings, tag links, and the status
  each failed step is answered with.
- `upload` — which form field is stored, where, and whom it is recorded as
  created by.
- `decimal` — `i32` decimal text, read and written.
- `status` — the HTTP statuses the server answers with.

`app/` is the server itself (axum routes, SeaORM tables and migrations, JWT
signing, file and database access); it calls the library for every decision.
