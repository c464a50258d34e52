# rust_agent_platform

A terminal chat client for LLM providers (Anthropic, Ollama, DeepSeek), with
built-in tools, MCP types, skills and a to-do store. The library in `src/` is
written in Verus: its functions carry `requires`/`ensures` contracts that are
proved, and `src/laws.rs` states properties that span several operations.

Layout:

- `src/` – the verified library
  - `text`, `numfmt`, `width` – character-level text work: trimming, lines,
    splitting, replacing, decimal and hex digits, terminal cell widths and
    greedy wrapping
  - `table`, `markdown` – box-drawn tables and the markdown renderer of the
    chat view (events from `pulldown-cmark`)
  - `stream`, `providers`, `requests`, `registry` – the providers' event
    streams, reply bodies, endpoints, the requests sent to them (address,
    headers, body fields) and the provider registry
  - `chat_app`, `chat_view`, `controller`, `ui`, `input` – the chat
    application's state machine, what the screens show, and the controller's
    decisions
  - `task` – task states and the one-at-a-time task coordinator
  - `skill`, `boulder`, `intent`, `tools`, `mcp`, `orchestration` – skills,
    to-do items, the intent gate, tool reports, MCP types and client, and the
    agents' message bus
  - `hooks` – hooks registered under event names and dispatched in order
  - `laws` – cross-operation properties
- `app/` – the program: terminal, HTTP, SQLite and file access
- `tests/` – tests of the library
