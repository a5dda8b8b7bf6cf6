# selection-ai-assistant

The logic of a desktop assistant that reads the text a user selects, shows
a small toolbar beside it and streams answers from an AI provider
(OpenAI-compatible, Anthropic Messages or Gemini), verified with Verus.

## Layout

- `src/` — the verified library.
  - `ai/` — action classification, the three provider protocols (request
    bodies, endpoints, headers, model lists), the server-sent-event reader
    and error replies with secrets redacted.
  - `commands/` — what the user interface asks for: prompts, the checks
    before a request, settings edits, panel and selection contexts.
  - `config/` — the settings, their defaults and the views sent to the
    settings window.
  - `selection/` — selection candidates, UI Automation reads, clipboard
    borrowing and restoring, and the selection state machine.
  - `input_monitor/` — hotkeys, mouse release and hover decisions, and the
    bookkeeping of following a selection while it scrolls.
  - `platform/` — per-platform capabilities, the selection-read and mouse
    decisions of the Windows backend, highlight detection in captured
    pixels and the PNG data URL of a capture.
  - `security/` — the secret store interface and an in-memory store.
  - `redact.rs`, `json.rs`, `text.rs` — redaction, a JSON model and the
    text functions the rest is written with.
- `tests/` — tests of the library.
- `app/` — a command-line shell around the library: the settings file,
  HTTP streaming with `reqwest` and `tokio`, JSON forms of the library's
  types, and the floating-point window and pointer geometry.
