# mcp_gateway

A compiler from OpenAPI 3 documents to MCP tool descriptions, and the
operator CLI around it, with the compiler's logic verified by Verus.

## Layout

- `src/` — the verified library.
  - Tool names: `names` (normalising, candidates, unique suffixes), `category`,
    `destructive` (tool annotations), `style`, `media`.
  - Loading a document: `loader`, `http` (capped downloads), `safety` and `ip`
    (which hosts and addresses may be fetched), `urls`, `server_url`, `digest`,
    `parse` (OpenAPI 3.0 / 3.1 validation), `error`.
  - The document model: `json` (values, objects, 3.0 normalisation), `refs`
    (JSON pointers, reference rewriting, the fetch budget), `resolve`
    (following `$ref`), `bundle` and `defs` (the definitions a schema needs,
    dangling references, reference loops).
  - Lowering operations: `collect`, `lower`, `servers`, `security`, `schema`
    (flattening `allOf`, hoisting definitions), `params`, `body`, `responses`,
    `draft`, `warnings`, `operation`, `compile`.
  - The CLI's decisions: `cli_args`, `cli_error`, `commands`, `config`,
    `secrets`, `fetchhive`, `tunnel_screen`, `upgrade`, `inspect` (client
    snippets, one tool, the summary and tool listings), `doctor` (the
    verdicts and tally of the health checks).
- `tests/` — tests of the library.
- `app/` — the command-line program: argument parsing, files, the network,
  bundling schemas with `jsonschema`, and the order in which the library's
  steps run.
