# libreoffice_ai

The core of a desktop assistant that drives LibreOffice through an MCP tool
server and chats through either Ollama or a local smolpc-engine, written in
Verus: every function in `src/` carries a contract that Verus proves.

## Layout

- `src/text.rs` – trimming, prefixes, ASCII case folding, with their meaning over `Seq<char>`.
- `src/json.rs` – `Json`, a JSON value as plain data, its reading operations, and the parse (serde_json).
- `src/models.rs` – chat messages, tools, tool calls, models.
- `src/engine.rs` – reading engine replies: complete tool calls, tool-call deltas, errors, tokens, model lists.
- `src/accumulator.rs` – assembling tool calls streamed in pieces.
- `src/stream.rs` – reading one line of an engine stream.
- `src/framing.rs` – newline framing of a text stream.
- `src/decoder.rs` – the engine stream decoder (bytes in, chunks out).
- `src/request.rs` – the prompt and generate payload sent to the engine.
- `src/providers.rs` – provider defaults, requests, Ollama's line stream, chunk conversion.
- `src/mcp.rs` – MCP status, JSON-RPC ids and replies, initialization retries, tool cache, launch plan.
- `src/system.rs` – dependency-check decisions.
- `src/config.rs` – settings and their defaults.
- `app/` – HTTP clients, child processes, files and the commands, around the library.
- `tests/` – tests run against the compiled library.

Laws proved in `src/` include: the decoded chunks do not depend on how the
stream is cut into pieces, as text or as valid UTF-8 bytes
(`decoder::law_push_concat`, `decoder::law_push_bytes_concat`,
`providers::law_reader_push_concat`), tool-call arguments sent in pieces are
reassembled (`decoder::law_delta_lines_reassemble`,
`accumulator::law_absorb_concat`), the `data:` prefix of a stream line is
optional (`stream::law_data_prefix_optional`), a recorded tool is found again
by name and the last tool of a name wins (`mcp::law_register_then_find`,
`mcp::law_record_last_wins`), and nothing follows the end of a stream
(`decoder::law_nothing_after_done`).
