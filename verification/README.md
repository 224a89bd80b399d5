# XingDu

A proxy for chat completions. Clients speak the OpenAI protocol (or ask the few questions that
Ollama clients ask); the proxy picks the backend that serves the named model and speaks to it in
the backend's own protocol.

The library under `src/` holds the decisions and is verified with Verus:

- `server::chat` takes a request from its arrival to its answer, one event at a time;
  `server::chat_laws` states what holds of every such exchange.
- `server::backends`, `server::requests`, `server::stream`, `server::documents` and
  `server::routes` hold what the exchange is made of.
- `client` prepares the calls to the backends and words their errors as OpenAI does.
- `middleware::semantic_cache` and `middleware::entries` find responses by the similarity of
  queries.
- `json`, `text`, `types` and `adapter` hold the data.

Floating-point numbers appear as their bits, times as nanoseconds, and what `serde_json`,
`reqwest` and the standard library compute is stated where the call is made.

`app/` is the proxy around the library: the HTTP server, the HTTP client, the locks, the clock
and the environment.
