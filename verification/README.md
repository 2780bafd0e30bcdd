# corpex

A desktop tool for investigating UK companies through the Companies House
API: company and director search, profiles, officers, persons with
significant control, charges, insolvency and filing history, a network of
ownership and shared-director links, text extraction from filed documents
(XHTML/iXBRL, PDF, JSON, XML), and AI analysis of what was found.

## Layout

- `src/` — the library, written in Verus and verified: the session state and
  how background results change it (`session`), the request and document
  logic of the API client (`client`), document text extraction (`xhtml`,
  `pdf`, `pipeline`), the corporate network and risk assessment (`network`,
  `group`, `investigate`), the AI prompts and provider requests (`prompts`,
  `provider`), the analysis report layout (`analysis`), what each panel of
  the window shows (`panels`), the cache and export layouts (`cache`,
  `export`), and the supporting string and map modules (`text`, `keyed`).
- `tests/` — tests of the library on concrete values.
- `app/` — the program around the library: HTTP requests, the tokio worker,
  file I/O for the cache and exports, and the egui/eframe window.

## Configuration

The program reads `.env` or the environment: `CH_API_KEY` for Companies
House; `ANTHROPIC_API_KEY` / `ANTHROPIC_MODEL` or `OPENAI_API_KEY` /
`OPENAI_MODEL` for AI analysis; `ANTHROPIC_DEFAULT_MODEL` for the Anthropic
model used when `ANTHROPIC_MODEL` is not set, and `ANTHROPIC_SETTINGS_MODEL`
for the model proposed on the settings page; `KANON2_API_KEY` optionally.
