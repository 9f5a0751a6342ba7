# Nest

Nest keeps game saves safe: the **Nest** server stores zipped save snapshots
(Eggs) per game (Clutch) for each account (Flock), and each device (Bird)
watches its games, compares its saves with the Nest before a game starts, and
uploads a new Egg after the game exits.

## Layout

- `src/` — the verified library (Verus). The system's rules live here with
  their contracts; the programs in `app/` do the I/O around them:
  - `domain`, `api` — the shared vocabulary and request/response shapes;
  - `error`, `accounts`, `server_config`, `rate_limit`, `auth`, `archive`,
    `coordination`, `rows` — the server's rules: configuration, account
    validation, tokens and passwords, game ids and archive paths, the
    compare/resolve sync model, the Brood Limit, stored rows;
  - `client_error`, `client_config`, `nest_client`, `forage`, `process`,
    `agent`, `flight` — the Bird's rules: its errors, configuration, HTTP
    conventions, save-path templates and save digests, process matching, the
    Feather Agent's scan, and the Flight Home lifecycle;
  - `text`, `ids`, `digest`, `clock` — text helpers, UUID text, SHA-256 and
    timestamps.
- `tests/` — scenario tests of the library.
- `app/` — the programs around the library: the HTTP server (axum, SQLite)
  and a headless Bird (HTTP client, files, process list), which perform the
  I/O the library's functions decide on.

## Server configuration

Every setting is an environment variable with a default, so the server
starts with no configuration at all:

| Variable | Default |
|---|---|
| `NEST_BIND_ADDR` | `0.0.0.0:8140` |
| `NEST_DATA_DIR` | `data` |
| `NEST_DB_PATH` | `<NEST_DATA_DIR>/nest.sqlite` |
| `NEST_BROOD_LIMIT` | `10` |
| `NEST_TOKEN_SECRET` | `dev-insecure-secret-change-me` (change it) |
| `NEST_TOKEN_EXPIRY_SECONDS` | `604800` (seven days) |
| `NEST_LOG` | `info` |

A blank value means the default. A bind address that is not a socket
address, a Brood Limit that is not an integer of at least 1, or a token
lifetime that is not an unsigned integer stops the server with a
configuration error.
