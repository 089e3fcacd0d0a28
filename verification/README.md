# g-server

A uniform interface for declaring HTTP servers, with its rules proved.

`src/` is the verified library (Verus):

- `http` — request methods, status codes and their classes, URIs and their
  display form, headers looked up by name ignoring ASCII case, responses,
  and the typed route tree (`Router`, `Routes`, `Nested`, `Route`,
  `MiddlewareHandler`).
- `service` — a server's configuration, the context shared by its handlers,
  its routes and executors, and the set of listeners a process serves.
- `runtime` — the per-route configuration of generated servers, the layers
  it puts around routers and routes, requests and multipart form data,
  responses and their builders.
- `dsl` — the `gserver!` declaration language: its keywords
  (`grammar`), configuration entries (`config`), endpoint validation and
  normalisation (`endpoint`, `path`), ports (`port`), routes and groups,
  the checks on whole declarations with error-handler inheritance
  (`server`), the names of generated functions (`naming`), the functions a
  group expands to (`emit`), the decisions behind the generated code
  (`expand`), and flat declarations without groups (`flat`).
- `text` — decimal rendering and character-level text helpers.

`app/` reads declarations with syn, writes the generated program with
quote, and holds the axum, tower and tokio adapters. `tests/` exercises the
library on concrete values.
