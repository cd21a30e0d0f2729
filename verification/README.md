# saya-cli agent tools, verified

The decision logic of the SAYA agent's tool layer, written in Verus: what
each tool advertises and accepts, how a call is routed, what a refusal
says, and what a result carries.

- `src/` — the verified library. Each public function states its result
  exactly over a spec model (`Json` is viewed as `JsonV`; strings as
  `Seq<char>`; byte buffers as `Seq<u8>`). The laws that span functions
  are public proof functions beside the code they speak of.
- `app/` — the unverified host side: `serde_json` conversion, the float
  `null_pct`, the concurrent fan-out (tokio, futures-util, async-trait),
  and the workspace drivers that perform the reads and writes the library
  decides.
- `tests/` — executable checks of the library on concrete values.

Modules of `src/`:

| module | what it decides |
|---|---|
| `definitions`, `tool_args`, `contract_args` | the advertised tool schemas and the argument validation they agree with |
| `dispatch`, `run_tools` | routing, the data-sharing gate, host-call argv admission, the fan-out report |
| `workspace_edit`, `anchor`, `redaction_guard` | anchored replace and offset-guarded append, digests, the `[redacted]` guard |
| `workspace_tools`, `chart` | the workspace file tools' arguments and results, `render_chart` |
| `schema`, `result_stats` | compact schemas, result shape, column health, join checks |
| `logs`, `propose`, `contract_tools` | per-turn observation and claim logs, contract proposals and reads |
| `system_prompt`, `session_facts`, `sql_format`, `tool_calls` | prompt assembly, SQL display, tool-call detail |
| `collapse_laws` | the laws of whitespace collapsing: idempotence, and words joined by single spaces on plain SQL |
| `json`, `text`, `tool_error` | the JSON model, string helpers, typed refusals |
