# Peckboard public API plugin

An Extism plugin that gives Peckboard a public HTTP surface under `/plugin-api/v1`, authenticated by
scoped API keys. Its logic is a library that is verified with Verus.

| Method and path | Scope | Host function | What it does |
| --- | --- | --- | --- |
| `GET /health` | none | settings | Liveness, how many keys there are, and whether they are seeded |
| `GET /projects` | `read` | `peckboard_list_projects` | Lists the projects |
| `GET /cards` | `read` | `peckboard_list_cards` | Lists the cards, filtered by `project_id` and `step` |
| `POST /cards` | `write` | `peckboard_create_card` | Creates a card from a JSON object |
| `GET /keys` | `admin` | settings | Lists the managed keys, without secrets and hashes |
| `POST /keys` | `admin` | settings | Makes a key `{label?, scopes}`, and tells its secret once |
| `DELETE /keys/:id` | `admin` | settings | Revokes a key |
| `GET /admin`, `/admin.css`, `/admin.js` | none | none | The management page |
| `OPTIONS /*` | none | none | The CORS preflight, a 204 |

A key is presented as `Authorization: Bearer <key>` or as `X-API-Key: <key>`; the bearer token wins.
A missing or unknown key is a 401, a key without the scope of the route a 403. A scope implies no
other.

The keys in force are a managed set, which the host keeps as a setting of the plugin. Of a secret
only its SHA-256 is kept, and the key that a request presents is hashed and compared with those. The set is made of the configured `keys` on the first request with a valid
key; from then on it is authoritative, and the configuration no longer changes it. The configured
`bootstrap_admin_key` is valid at all times and grants every scope: it reaches the data even while the
settings cannot be read. So is the health check answered.

## Layout

- `src/` is the verified library. `src/plugin.rs` holds the entry points. `handle` returns a step:
  a reply, a host call to make, or the request to load the managed set, with which `resume` goes on.
  A step may ask for the set to be seeded or saved first; `saved` tells what follows the latter. `host_reply` turns the
  outcome of a host call into the reply. `src/laws/` states and proves what holds of the whole: who
  is served what, what managing keys comes to, which requests are the plugin's own, what replies
  say, and what queries mean.
- `app/` is the plugin around it: the exports, the host imports, the messages as `serde` reads them,
  and the random bytes and the time that the library is given.
- `tests/` runs the library, with `serde_json` and `sha2` linked.

What is trusted rather than proved stands in `src/json.rs` (the values, the parser and the printer
of `serde_json`), in `src/hashing.rs` (the SHA-256 of `sha2`), in `src/query.rs`
(`String::from_utf8_lossy`) and in `src/text.rs` (`String::push`). Timing is not part of any contract.
