# glass_core

The decision-making core of the Glass browser, its Apple runtime actions and its service
hub, written in Verus. Verus checks the body of every function in `src/` (its contract where it
has one, and that it cannot overflow or panic), with one exception: the small wrappers marked
`#[verifier::external_body]`, which make a call into the `url` crate or into a part of `std`
that Verus does not specify. Verus takes their contracts on trust; the doc comment of each
says what is assumed.

- `src/` — the verified library: address bar parsing, key routing, history, bookmarks, the
  tab strip, suggestion lists, the new tab page search box, App Store Connect command plans
  and pane state, runtime detection decisions and execution plans, and the laws in
  `src/laws.rs` that relate these operations.
- `tests/` — tests run against the compiled library.
- `app/` — ordinary Rust around the library: running commands, walking workspaces, reading
  and writing saved state as JSON, and the computations done in floating point.
