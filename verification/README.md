# xzar

A pinning-based Nix binary cache: a server that stores NARs and answers
Nix's narinfo requests, a command-line client that uploads the closure of
store paths and names it as a pin, and garbage collection that removes
what no pin or upload lock holds.

## Layout

- `src/` — the library, verified with Verus: the text formats (narinfo,
  Nix base32, fingerprints, durations), the server's request checks and
  decisions (authentication, uploads, pins, locks, administration, OpenID
  Connect login, garbage collection steps), the client's configuration,
  retry and output logic, and what the web interface shows (the pin tree,
  each pin's badge, labels and actions). Calls into outside crates
  (base64, sha2, ed25519-dalek, url, rand, dirs, serde_json with openid's
  userinfo type) stand behind small trusted wrappers whose contracts say
  what the library relies on.
- `tests/` — tests of the library.
- `app/` — the programs around the library: the HTTP server (Rocket and
  Diesel), the client (reqwest), the file storage, and the command lines.
  Run under a name ending in `server` the executable serves the cache;
  otherwise it is the client.
- The web interface's components themselves (their rendering and the
  browser application) are not in this crate; the server serves no
  embedded interface.
