# silex_ingress

The routing core of the Silex ingress controller, verified with Verus.

`src/` is the library. It decides, for every connection of the data plane,
whether the request goes to a backend (the one registered for the host named
in its first `Host` header, port stripped) or is answered 404 / 502, and it
keeps the ingress counters. It reads control-API requests, registers routes,
path rewrites and TLS certificates, resolves certificates by server name,
tracks backend health for the circuit breaker, and renders the metrics pages
(Prometheus exposition and the control API's `/metrics`).

- `http`: header fields (parsed by `httparse`), the `Host` field, the host
  name without port, the backend selected from the route table.
- `forwarding`: the request as the backend receives it: the path swapped
  for its registered rewrite, `X-Forwarded-For` / `X-Real-IP` added.
- `proxy`: what a connection handler does with the client's first bytes.
- `control`: control-API requests and registrations.
- `tls`: base64 / PEM decoding of certificate material (`base64`,
  `rustls-pemfile`), certified keys (`rustls`) and the two resolvers.
- `breaker`: the circuit breaker's health registry; probe results count
  only for the registration they were started for.
- `tables`: the `dashmap` maps behind all of the above.
- `telemetry`: counters and their text renderings.
- `text`: byte-string helpers (ASCII literals, decimal numerals, prefixes).
- `laws`: properties that span several operations.

All mutating operations take `&mut`; `app/` shares the state between tasks
behind `RwLock` / `Mutex` and does all network I/O with tokio: the data plane
on port 80, the control API on port 9090, the TLS listener, signal
handling and the health monitor.
