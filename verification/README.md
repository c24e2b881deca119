# byok_server

The decision logic of a local server that lets Cursor run on the user's own model
providers ("bring your own key"), written in Verus and proved against its contracts.

- `src/` is the verified library. Every executable function states what it returns or
  changes; the laws that relate several operations are public proof functions beside them.
  - Model configuration and selection: `configuration`, `model_config`, `plugin`,
    `directory`, `catalog`, `run`, `runtime`, `bidi` (aliases, subagent routing, the default
    model of a Bidi append).
  - Conversation state and checkpoints: `protocol`, `messages`, `completions`, `pending`,
    `registry`, `checkpoint`, `checkpoint_builder`, `subagent_runs`, `orchestration`,
    `tool_runtime`, `exec_result`, `output`, `context_sync`.
  - Cursor integration on this machine: `local_app`, `proxy`, `access`, `cursor_settings`,
    `remote_ssh`, `skills`, `knowledge`, `control`.
  - Shared pieces: `text`, `json`, `digest`, `blob`, `tokens`, `request_url`, `error`.
- `tests/` exercises the library on concrete values.
- `app/` holds the file-system edges (rules directory, Cursor's settings file, skill
  directories) and the serde forms of the library's input types.

Calls into outside crates (SHA-256, hex, base64, URL parsing, JSON, UUIDs, RFC 3339 time)
stand behind small trusted wrappers whose contracts say what the crates' documentation and
source promise.
