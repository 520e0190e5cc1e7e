# opensovd

A verified core for an OpenSOVD (Service-Oriented Vehicle Diagnostics) stack,
written in Verus.

- `src/` — the library, verified by Verus:
  - `component`, `data`, `dtc`, `fault`, `routine`, `error`, `roles`: the
    shared diagnostic types and the error type.
  - `resources`: the SOVD v1 REST resource shapes (faults, entities,
    operations, executions, data values) and their views.
  - `filter`: fault filters, the `GET .../faults` query, and the test every
    listed fault passes.
  - `in_memory`: the multi-component in-memory server and its
    per-component views, with the demo roster.
  - `codec`: length-prefixed framing of encoded fault records.
  - `wire`: REST paths and the URLs they give against a base URL, the
    query of a fault filter, and how failed HTTP exchanges and errors map
    onto each other.
  - `assoc`, `json`, `text`: text-keyed maps, JSON documents carried as
    text, and text building blocks.
- `app/` — the HTTP server, the HTTP forwarding backends, async framing on
  byte streams, and the serde forms of the wire types.
- `tests/` — tests of the library.
