# devc

`devc` writes and reads a project-local `devc.toml` manifest that names the dev
container a repository uses, and prints compose and justfile snippets for it.

- `src/` is the verified library:
  - `text` — trimming, line splitting, ASCII classification, decimal notation;
  - `snake` — `UPPER_SNAKE` environment variable names and their laws;
  - `manifest` — the `key = "value"` format and its parser;
  - `paths` — where the manifest is looked for, default workspace names;
  - `cli` — command-line parsing and the command names;
  - `config` — the project configuration, `init` defaults, loading, and the
    texts written from it;
  - `laws` — that a written manifest reads back as what was written.
- `app/main.rs` is the command-line program: arguments, the file system and output.
