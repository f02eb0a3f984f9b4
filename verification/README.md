# warp_usage

Verified logic behind Warp's conversation usage popover and a few related
agent surfaces, written in Verus.

- `src/` is the verified library:
  - `usage_rows`, `usage_text`, `token_count`, `colors`, `popover`: the
    per-model usage rows (filtering, role pills, stable primary-first
    ordering), value texts (including an exact integer reproduction of the
    `{:.1}k` token abbreviation), chart colors, and the popover's state
    machine with its laws;
  - `conversation`, `tombstone`: conversation ids, bootstrap conversation
    reuse, and the ended-conversation tombstone data;
  - `bootstrap`, `bootstrap_snippets`: assembling a shell's bootstrap script
    from bundled assets and locating its functions and snippets;
  - `mcp`, `mcp_parse`, `env_vars`: MCP config discovery, the bookkeeping of
    config parses and of the initial global scan, and `${NAME}` substitution.
- `tests/` exercises the library.
- `app/` is the unverified host glue: color conversion for the renderer,
  float-valued figures (dollar costs, seconds, bar percentages) and the file
  and environment reads whose results the library is handed.
