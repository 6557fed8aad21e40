# resident_ai

Client-side logic for driving AI command-line agents, verified with Verus.

- `src/` is the verified library:
  - `text`: character-level string work with exact specifications (last
    occurrence of a pattern, Unicode white-space trimming, decimal numbers,
    `@file` references).
  - `json`: a JSON value type with a mathematical model; serde_json parses and
    writes the text.
  - `acp`: JSON-RPC 2.0 messages of the Agent Client Protocol, and the client
    state machine (request ids, handshake, collecting a streamed answer,
    decoding lines read from the agent).
  - `session`: prompts that ask for a tagged answer, extraction of that answer
    from terminal output, and the polling decision of a query.
  - `api`: analysis options and the decisions of `analyze`.
  - `cli`: the command line of the analyzer-compatible tool.
- `app/` holds what touches processes, pipes and the Windows pseudo-terminal:
  `AcpSession`, `analyze`/`prompt`, `ConPty`, `ResidentSession`, and the entry
  points of the command-line tools.
- `tests/` runs the library on concrete values.
