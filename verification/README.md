# remitos

Backend for issuing delivery notes ("remitos"): customers, products, the
issuing company, and notes made of product lines, with password login and
a session cookie, and a printable PDF of each note.

- `src/` is the verified library (Verus):
  - `text.rs`: integer formatting as `format!` prints it, trimming, splitting.
  - `pdf.rs`: money formatting, the HTML page of a note, the PDF of it.
  - `remito.rs`: building a note line by line; the total is the sum of the
    subtotals, each price times quantity.
  - `auth.rs`: password hashing, session tokens, the session cookie and
    finding it in a `Cookie` header.
  - `api.rs`, `server.rs`, `error.rs`: handler decisions, start-up settings,
    the error answer.
  - `bindings.rs`: the trusted calls into argon2, jsonwebtoken, cookie,
    chrono and printpdf, each with the contract it is believed to meet.
- `app/` is the HTTP server (axum, sqlx, tokio) around the library.
- `tests/` exercise the library with the real crates linked.

`serde_json` (with `preserve_order`) is a direct dependency because the
session claims are handed to `jsonwebtoken` as a JSON map built from the
library's `Claims`: the verified library's types carry no serde derives, and
the map keeps `sub` before `exp`, as a derived serialisation would.
