# Vitruvius

Peer-to-peer file synchronisation with zero-knowledge encryption. The library in
`src/` holds the rules, formats and decisions, with contracts that Verus proves; the
program in `app/` does the input and output, and what needs floating point.

## The library

| Module | What it holds |
|---|---|
| `crypto`, `primitives` | encrypted blocks, subkeys, blinded names and hashes, over the outside primitives |
| `vault` | the container format in which files rest encrypted |
| `storage`, `listing`, `transfer` | chunks, metadata, manifests, transfers, assembly, the index for deduplication |
| `identity`, `tofu` | the key pair of a node, the store of trusted keys and the key agreement |
| `state`, `peer`, `network`, `gui` | what a node knows, peers, messages, the page |
| `sync` | how a node answers its user, its peers and the clock, and its download scheduler |
| `watcher`, `args`, `cli` | changes in the folder, the command line, the terminal |
| `file_transfer` | files that are sent to all peers by gossip |
| `delta` | the engine that exchanges versions and only what changed of them |
| `collections`, `paths`, `pieces`, `text`, `error` | what the others are built from |

Handlers do no input or output. They take the state and an event, and leave effects in
an outbox, in order; where something has to be read or written first, they return a
step, and a finishing function takes its outcome.

The outside functions that the proofs rest on are in `src/primitives.rs`, each with
what is claimed of it.
