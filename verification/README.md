# postcrate-core

The decision core of a mail-capture engine for local development, tests and CI,
written in Verus: the functions of the library have contracts that are proved, but for
the few that only make a call to another crate or to `std` (see below).

What is in `src/`:

| Module      | What it holds                                                                    |
| ----------- | -------------------------------------------------------------------------------- |
| `mail`      | SMTP paths with their parameters, and the projection of a parsed message          |
| `mailbox`   | kinds, ports, expiry schedule, running listeners, and what is done about failures |
| `matcher`   | email predicates: a cheap filter, and a check that reports each failed clause     |
| `rendering` | previews as mail clients show them, the HTML linter, the accessibility linter     |
| `recording` | the recording format, and replaying what was recorded                             |
| `db`        | rows, how they are written, read, listed, selected and removed                    |
| `pipeline`  | ingest, retention, webhooks and forwarding                                        |
| `http`      | the rules of the HTTP API: tokens, paging, answers, events, Mailtrap's shapes     |
| `text`      | searching, splitting and replacing text, numbers, letter case                     |

Contracts are stated over mathematical values (`Seq<char>`, `Map`, `Multiset` and the
`...Model` types). Properties that span several functions are the public proof
functions whose names begin with `law_`.

A few functions call other crates: `regex`, `base64`, `serde_json`, `mail-parser`,
`chrono`, `uuid`, `dashmap` and `http`. Each such call stands alone in a small function
marked `#[verifier::external_body]`, whose doc comment says what is believed of it
without proof. The same is done for functions of `std` that Verus has no contract for.

`app/` is the engine around the library: the command line, the SQLite store, the sockets
and the HTTP server. SMTP sessions and the relay are supplied by the embedder.
