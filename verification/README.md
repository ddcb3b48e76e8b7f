# mcp-server-grok-management

MCP server for the xAI Management API (team API keys and billing), over stdio.

- `src/` is the library, verified with Verus: the requests each tool sends, the
  confirmation gates of the write tools, how a response is read, and every text
  the tools answer with. Payloads are held in the library's own `Json` type.
- `app/` is the server around it: reading `config.toml`, HTTP, the MCP tool
  router, and the floating-point sums of the usage report.
- `tests/` runs the library on concrete payloads.

Money fields are USD cents (`10000` is `$100.00`). Write tools need an exact
`confirm`: `DELETE`, `ROTATE`, `YES-WRITE` or `TOP-UP`.
