# rbuilder_constraints

Preconfirmation constraints for an Ethereum block builder: taking them in, pooling them by slot,
working them into a block, and proving that the block holds them. The library under `src/` is
verified with Verus; `app/` is ordinary Rust around it.

| Module | What it holds |
|--------|---------------|
| `constraint_input` | polling of the constraints server, submissions over RPC, the pool and its sinks |
| `building` | setup and finalization of a block, and the transaction trie with its proofs |
| `block_output` | proofs for submitted blocks: generated, kept for the last 10 slots, served |
| `mev_boost` | submissions to relays, with or without merging data |
| `collections` | maps and the cache that the above keep their data in |
| `primitives` | bytes, numbers, times and encodings |

Where work alternates with an outside party (the constraints server, the execution layer, the
order pipeline), the library says what to do next and what to make of each answer: `ConstraintsPoller`,
`Submission`, `HelperSetup` and `Finalization`. The tasks in `app/` do what is asked and hand the
answers back.

What holds of the library as a whole is stated in public proof functions: `pool_laws` and
`finalization_laws`, and beside the functions that the others are about.

Outside code is called through wrappers whose contracts are believed. Each has a doc comment that
says which function it calls and what is claimed of it.
