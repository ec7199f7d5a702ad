# agmem

Agent memory over MCP: one store shared by every session on a machine, with
the claims of past sessions recalled, corrected and cited by the next one.

The library under `src/` is the part that decides. It is written in Verus, and
what each function returns or changes is stated in its contract and proved.

| Module | What it holds |
|---|---|
| `text` | characters, words, paths, decimals, padding and ASCII case |
| `domain` | spaces, ids and records, JSON values, normal forms and hashes, chunking, rank order |
| `embed` | models and accelerators, batching, tokenizer layout, and what each backend does around its model |
| `server` | configuration, the daemon handshake and its accept loop, the session side, hooks, tools, resources, documents, doctor, startup and reindexing |

What the library takes from outside crates goes through a few declared
functions with a contract each: BLAKE3 (`domain::dedup`), JSON reading and
quoting (`domain::json`), semantic versions (`server::release`), and case
folding and quoting of the standard library (`text::standard`).

`app/` is the program around it: the command line, files, sockets, processes,
the models themselves, the MCP transport, and everything in floating point.
`tests/` runs the library on concrete values.
