# telemetry

One call installs a Rust process's telemetry: `tracing` to stderr for the developer,
allow-listed OTLP/HTTP logs and OTLP traces to a collector. It is configured by the
standard `OTEL_EXPORTER_OTLP_*` variables plus one helper variable for the bearer, or
by the application's own settings where the environment set nothing, and it is local
only when no endpoint is set.

- `src/` is the library: what is decided, verified with Verus. It performs no I/O.
- `app/` is ordinary Rust around it: the environment, the clock, the header helper,
  the layers, the providers and the HTTP clients.
- `tests/` runs the library with the outside crates it calls.
