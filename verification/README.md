# nexoia

A verified library for evidence-backed decisions and the peer network that
shares them, written in Verus.

## Layout

- `src/` — the library. Every function has a contract, and Verus proves the
  code against it.
  - `decision`, `evidence`, `quality`, `state`, `pipeline`, `explain`: run
    decisions, evidence strength, and how the two sides of a decision resolve.
  - `provenance/`: typed provenance nodes, witnesses, derivation chains, and
    checking a run's output directory against its manifest.
  - `lgpd`, `lgpd_rights`: data-subject metadata and the subject's rights
    (index, export, revocation, anonymisation).
  - `network/`: identities and signatures, hybrid X25519 + ML-KEM sessions,
    the handshake and listener state machine, anti-replay windows,
    heartbeats, reputation and encrypted packages.
  - `nex/`: the NEX language (lexer, parser, evaluator, imports), reactive
    rules, and the self-observation loop (observer, planning, iteration log,
    checkpoints, controlled internet access).
  - `text`, `bytes`, `textmap`, `addrmap`, `hash`, `ids`, `clock`: building
    blocks. Calls into outside crates sit behind small trusted wrappers, each
    with a doc comment that says what is assumed.
- `tests/`: tests run against the compiled library.
- `app/`: the command line around the library, which reads files, runs
  tools and prints results.
