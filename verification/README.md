# himalaya_lib

An email library whose logic is proved with Verus: a message is parsed once
(with `mailparse`) and turned into templates to read it, to reply to it and to
forward it; the errors of its web API are mapped to HTTP answers.

Layout:

- `src/` — the verified library.
  - `text.rs`: character-level helpers (`str::lines`, ASCII case, joining) over `Seq<char>`.
  - `address.rs`: mailboxes, read and written with `lettre`.
  - `mail.rs`: a parsed message as plain values, and header lookups.
  - `parts.rs`: plain-text bodies, text parts, attachments.
  - `config.rs`: account settings (sender, signature, reading headers).
  - `tpl.rs`: templates and the template builder, with its laws.
  - `email.rs`: the message, its three templates, and their laws.
  - `error.rs`: API errors and the answer each one is given.
- `tests/` — tests run against the compiled library.
- `app/` — the HTTP side (`axum` responses, logging, the warning for each
  attachment that cannot be decoded) and the `thiserror` copies of the error types.

Messages are read from raw bytes only: reading one from IMAP fetches (an
`imap`-backend input, with its "empty fetches" error) is left out, as that backend
needs the `imap` crate and a TLS stack.

Calls into outside crates go through small trusted wrappers, each documented
with what its contract claims; everything else is verified.
