# zaccounts_web

A local web panel for a library of accounts: a small HTTP server that answers the pages of a
browser, sends them events, and takes their commands.

- `src/` holds the decisions, each with a contract that Verus proves: how requests are read and
  answered, where they go, what each command asks for and what follows each answer, how a claim, a
  login, an export, an import and a change of the settings go on step by step, and when the panel
  switches accounts by itself. The public proof functions named `law_...` state what holds of
  several of these together.
- `tests/` runs the library on concrete values.
- `app/` is the program around the library: sockets, files, clocks, threads and locks. It does the
  work that a step names and hands the outcome back. The account core (accounts, quotas, logins at
  the services, sealed files, messages) is the trait in `app/core.rs`; an implementation is linked
  in under `account_core`.

What is believed without proof is marked in the source: the items in `json.rs` that call
`serde_json`, those in `text.rs` that call `String::push` and `String::from_utf8_lossy`, and
`fresh_id` in `oauth.rs`, which calls `uuid`.
