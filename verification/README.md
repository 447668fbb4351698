# latticefs

A verified library for a content-addressed, versioned object store with
tags, views, policies and capability tokens, written in Verus.

- `src/` is the library. Every function in it is verified against its
  `requires`/`ensures`; outside crates (BLAKE3, AES-GCM, Ed25519, UUID,
  base58/base64, serde_json, argon2, time, dirs, sys-locale) are reached
  only through small wrappers whose contracts state what those crates
  document.
  - `model/`: objects, versions, tags, links, states and the version graph.
  - `storage/`: content-defined chunking and content hashes.
  - `query/`: the LQL lexer, parser, evaluator and explanations.
  - `crypto/`: identities, encryption, key files and capability tokens.
  - `policy/`, `views/`, `ipc/`, `watcher.rs`, `import.rs`, `repo.rs`:
    permissions, saved and built-in views, request planning, the watcher's
    decisions, imports and new versions.
- `app/` holds the parts that do I/O: configuration and key files, chunk
  files, message frames, the watch-file registry and the rate limiter.
- `tests/` exercises the library through its public API.
