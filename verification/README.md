# monas-state-node

The domain core of a Monas state node, verified with Verus: value objects,
identities and capabilities, access control and its replica merge, content
networks and the placement of contents on nodes, auth tokens and their
checks (ES256 over P-256), UCAN-style delegation, node authentication, the
decisions that the node service takes on requests and on events from other
nodes, and the client-side credentials (signed requests, key-ID proofs,
signed tokens).

Layout:

- `src/` — the library. Every function carries a `requires`/`ensures`
  contract; laws that relate several functions are public proof functions
  named `law_*`. The content operations of the node service (create,
  update, delete, redundancy maintenance) are step functions in
  `service_steps`: from a state and the outcome of the last outside action
  to the next state and action, so that a caller can run them against its
  repositories and network. Calls into `p256`, `sha2`, `hex`, `base64`, `cid`,
  `multihash-codetable` and `rand` stand behind small trusted functions whose
  contracts say what those crates document.
- `tests/` — tests of the library on concrete values.
- `app/` — the command-line credential tool and the parts that do I/O:
  JSON (serde) forms of tokens, key files, disk space and configuration from
  the environment.
