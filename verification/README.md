# pg-starttls

A shim that answers PostgreSQL's two-phase SSL negotiation in front of a gateway
that routes by SNI, and splices the TLS stream that follows back into the gateway.

- `src/` is the library: every decision of the shim, written and proved in Verus.
  - `packet`, `opening`: the bytes that a connection starts with.
  - `negotiation`: answering the client until its wish is known.
  - `session`: what follows, for a client that is spliced and for one that is not.
  - `response`: the ErrorResponse message.
  - `service`: accepting, draining, and what is logged.
  - `config`: settings; durations are parsed by `humantime`.
  - `error`, `text`: failures and their descriptions.
- `app/` is the process around it: sockets, timers, signals, the environment.
- `tests/` runs the library on concrete connections.

A negotiation is specified by its transcript, a session by the history of what it
did: what comes next is a function of these alone, and the laws are stated over them.

## Settings

| Variable | Default |
| --- | --- |
| `LISTEN_ADDR` | `0.0.0.0:5432` |
| `UPSTREAM_ADDR` | required |
| `HANDSHAKE_TIMEOUT` | `10s` |
| `DIAL_TIMEOUT` | `10s` |
| `DRAIN_TIMEOUT` | `20s` |
