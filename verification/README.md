# model-gateway

A gateway in front of OpenAI- and Anthropic-style model APIs. It checks the
key a caller presents, forwards each request to the configured upstream,
answers with the upstream's response (streamed or not), and logs each
exchange to ClickHouse with ids from a per-node sequence generator.

- `src/` is the library, verified with Verus: key validation, routing,
  the request sent upstream, request and response parsing, reassembly of
  streamed responses, the query log rows, sequence ids and the migration
  statements.
- `app/` is the server around it: configuration file, sockets, HTTP, the
  upstream client and the databases.
- `tests/` runs the library on concrete inputs.
