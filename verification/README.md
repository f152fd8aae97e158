# holon_http

The HTTP layer of the Holon agent daemon, as a verified library: the rules
behind its routes, proved with Verus, and the server glue around them.

- `src/` — the verified library. Error envelopes and their HTTP statuses
  (`errors`, `conversation`), request validation (`validation`, `access`,
  `origins`), workspace file serving (`files`, `workspace_listing`, `web`),
  event and conversation streams (`events`, `conversation`), the state
  bootstrap (`state`, `bootstrap`, `work_item_order`), the projection cache
  (`projection_gate`), background jobs (`jobs`), control-plane helpers
  (`control`, `ingress`, `observer_sync`, `tasks`), and the calls into
  outside crates (`bindings`).
- `tests/` — tests of the library on concrete values.
- `app/` — unverified helpers around the library: serde wire types and
  JSON conversion, file-system reads, clocks, and axum response assembly for
  files, web assets and errors. The router, the handlers and the stream
  loops of the daemon depend on its runtime host and are not part of this
  crate.
