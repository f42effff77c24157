# vask

Ask questions about YouTube videos using Gemini's native video understanding: a
command-line tool and an MCP server over stdio, with three operations (`ask`,
`summarize`, `chapters`).

## Layout

- `src/` is the library, verified with Verus:
  - `analyze.rs`: which URLs are YouTube videos, and what each operation asks Gemini
    (prompt, video URL, response schema);
  - `gemini.rs`: a JSON value model, the `generateContent` request body, the endpoint
    address, and reading the generated text out of a response;
  - `config.rs`: resolving the API key and model from flag, environment and config file;
  - `cli.rs`: the text output of answers, summaries and chapters;
  - `error.rs`, `types.rs`, `mcp.rs`, `text.rs`: errors, result types, tool arguments and
    character helpers.
- `app/` is the program around it: argument parsing (clap), reading the environment and
  the config file (dirs, toml), HTTP (reqwest), JSON input and output (serde_json),
  the MCP server (rmcp) and the async runtime (tokio).
- `tests/` runs the library on concrete values.
