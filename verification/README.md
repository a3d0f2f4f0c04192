# config_server

A configuration management server: it keeps every environment's configuration
as a numbered history of versions, tells subscribers about every update, sends
updates of the current environment on a watch channel, and serves the
configurations and their histories over HTTP, with live updates as server-sent
events.

- `src/` is the library, verified with Verus:
  - `publisher.rs`: the histories, the notifications, and the laws about them.
  - `config.rs`: configurations, errors, and the per-environment set loaded from files.
  - `config_file.rs`: which file names hold which environment's configuration.
  - `replies.rs`: which status and message each request is answered with.
  - `delivery.rs`: the watch channel and the subscriber list, each keeping the
    record of every call made through it.
  - `keyed.rs`, `text.rs`: the map model behind the collections, and decimal numbers.
  - `external.rs`: the outside types and calls, with the contracts that are trusted.
- `app/` is the server around it: directory reading, HTTP routes, the actor,
  the SSE stream and logging.
- `tests/` exercises the library.
