# chatbang

Access LLMs from your terminal — local (Ollama) or cloud (Groq, Gemini,
Together.ai, OpenAI), or the ChatGPT web page through a Chromium browser —
with a registry of tools that the model may call.

The crate is written in Verus. `src/` is the verified library: the tool
registry and its structural argument preflight, the tool-call envelope
scanner and reader, the system-prompt generator, the decisions of the chat
loop, the configuration rules, the platform tables, and the pure parts of the
built-in tools. `app/` is the program around it: the command line, HTTP,
the browser, processes, files and the terminal.

Layout:

- `src/text.rs`, `src/json.rs` — string helpers and a plain model of JSON.
- `src/tools/` — errors, schemas and preflight, registry, prompt, protocol,
  built-in tools.
- `src/backends/` — provider settings, endpoints and messages.
- `src/agent.rs`, `src/config.rs`, `src/platform.rs` — the loop's decisions,
  configuration, and platform choices.
- `tests/` — tests of the library.
- `app/` — the executable.
