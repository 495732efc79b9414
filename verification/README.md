# agents_rs

Building blocks for LLM agents, with their logic verified by Verus: messages
and contexts, tool definitions and registries, JSON-envelope tool-call
parsing, schemas (JSON Schema, GBNF, regex, validation), chat templates
(Llama 3, Gemma 4, ChatML, Mistral), tool-call loops as state machines,
streaming turns, retry and caching policies, and the message encoding of a
local llama.cpp backend.

Layout:

- `src/` — the verified library. Its functions carry contracts over
  mathematical models (`Seq`, `Map`, spec functions); cross-function
  properties are stated as `law_*` proof functions. Calls into `serde_json`,
  `regex` and `std` that Verus cannot read go through small trusted wrappers
  whose contracts say what the outside function does.
- `app/` — the async runtime around the library: the `Agent`,
  `StreamingAgent` and `Tool` traits, the loops that await agents and tools
  and feed the library's state machines, serde forms of the library's types,
  the logging/retry/caching wrappers, and the llama.cpp worker thread.
- `tests/` — tests of the library on concrete values.
