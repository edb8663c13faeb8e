# ai_translator

The logic of a desktop client that translates and summarizes text with
OpenAI-compatible chat models (LM Studio, Ollama, Google Gemini, Cerebras,
Ollama Cloud), verified with Verus.

## Layout

- `src/` — the verified library.
  - `text.rs`: character helpers (trimming by Unicode white space, ASCII case
    folding, decimal notation, UTF-8 lengths).
  - `chunking.rs`: splitting long text into chunks of bounded size, with the
    laws that the chunks reassemble the text and respect the size.
  - `keys.rs`: normalizing pasted API keys, credential-store messages, UTF-16
    wide strings.
  - `credentials.rs`: the decisions around the Windows credential store and
    the key sent with each request.
  - `prompts.rs`: prompts and chunk error messages.
  - `endpoints.rs`: provider URLs and model lists.
  - `files.rs`: sanitized, translated and numbered output file names.
  - `stream.rs`: server-sent event lines, content deltas, thinking-block
    filtering.
  - `cancel.rs`: the set of tasks asked to stop.
  - `run.rs`: a chunked run as a sequence of decisions.
- `tests/` — tests of the library on concrete values.
- `app/` — the Tauri shell: commands, HTTP streaming, the credential store,
  the clipboard and files.
