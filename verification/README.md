# pmvheaven

The core of a desktop client for PMVHaven, written in Verus: the client's
rules (queries, filters, the play queue, history sync, the stream proxy's
guard and playlist rewriting, cookies and encrypted payloads, update checks,
the player's stream and quality choices) are executable functions with
contracts that Verus proves. What is left outside is I/O and state kept
elsewhere: SQL statements, HTTP, files, the environment, and the user
interface, which this crate does not contain.

- `src/` — the verified library
  - `models` — catalog types, sort orders, content chips, the `/api/videos` query
  - `api` — what the HTTP client decides without the network (auth, paging, batching, reply fields)
  - `account` — session cookies: parsing `Set-Cookie`, merging, headers, the encrypted blob
  - `crypto` — AES-256-GCM payloads `iv.tag.ciphertext` (base64), hex keys, key choice
  - `filters` — the browse filter panel and the feed request it makes
  - `queue` — the play queue
  - `sync` — status of history jobs and the pull / push state machines
  - `proxy` — the local stream proxy's host guard and HLS playlist rewriting
  - `updates` — release tags, asset choice, whether to offer an update
  - `player` — what a click on a card does, the stream sources and quality menu, layout settings, player messages
  - `labels`, `paths`, `repo`, `gfx`, `text` — smaller rules and string helpers
- `tests/` — tests on concrete values
- `app/` — the program around the library: SQLite, HTTP, the axum proxy,
  files, environment, and the command line

Calls into outside crates (`base64`, `sha2`, `aes-gcm`, `rand`, `url`,
`semver`, `chrono`, `serde_json`) are made from small trusted wrappers whose
contracts state what those crates document.
