# book-writer-chat

A messenger and web front end for writing a book with an AI agent. Authors talk to a bot
(Telegram, MAX, or the web app); each conversation owns a book workspace of Markdown and
YAML files that the Codex CLI edits, and a reader renders the book behind signed links.

## Layout

- `src/` — the library, verified with Verus: command parsing, message normalization for
  each messenger, the records of conversations, books, jobs and revisions, the authoring
  flow's decisions, prompts, workspace templates and diffs, the reader's chapter
  selection and asset URLs, rendering (Markdown events rewritten to carry their source
  positions and workspace image paths, content hashes),
  reader links and operator tokens, web-book provisioning, conversation registries and
  session transcripts. Every function states its behaviour in `requires`/`ensures`; the
  laws that relate several functions are public proof functions (`law_*`).
- `app/` — the server around the library: configuration from the environment, files on
  disk (including the file-system lookups of image references), the agent and download
  processes, and the axum routes.
- `tests/` — tests of the library on concrete values.

Calls into outside crates (HMAC, SHA-256, base64, JSON string quoting, date-time
formatting and parsing, Markdown parsing and HTML writing) stand behind small trusted
wrappers whose contracts say what the crates' documentation promises, or give the result a
name where it cannot be stated in a few lines.
