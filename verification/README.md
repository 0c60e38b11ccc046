# stremio-service

A Stremio streaming server that plays torrents from a [Torbox](https://torbox.app)
account. Its logic is a library verified with [Verus](https://github.com/verus-lang/verus);
the server around it is ordinary Rust.

- `src/`: the library. Requests, replies and what the gateway remembers are plain
  values, and every function has a contract that Verus proves.
  - `args`, `config`: command-line switches, the config file and their precedence.
  - `torbox`: requests to the Torbox API and what its answers mean.
  - `gateway`: the CORS policy, the state, and the routes.
  - `gateway/routes/ensure`: getting a torrent ready on Torbox, step by step.
  - `gateway/routes/hls`, `gateway/routes/playlist`, `gateway/routes/token`:
    playlists and segments. Outside direct mode the token of the account is taken
    out of the lines of a playlist and out of the redirects to segments.
  - `gateway/routes/stream`, `gateway/routes/meta`: torrents, progress, settings
    and probes.
  - `bindings`: the calls into `url`, `percent-encoding`, `hex` and `axum`, with the
    contracts that the rest relies on without proof.
  - `text`, `json`, `table`, `response`, `base32`, `info_hash`: what the rest is
    built from.
- `tests/`: tests of the library on concrete values.
- `app/`: the program: command line, config file, HTTP client and server.

A floating-point number is carried by its bits (`json::Double`), a time by the
milliseconds of the gateway's clock.
