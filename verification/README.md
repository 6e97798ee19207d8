# LLM Proxy

An OpenAI-compatible proxy server that sits between a client and an upstream LLM API. It checks the
model of a request against an allowlist and its `Authorization` header, forces `stream: true` and
`enable_thinking: false` upstream, and answers with the upstream's event stream or with one collected
document, as the client asked.

The logic is a library whose functions carry contracts that Verus proves; the server around it is
ordinary Rust.

- `src/json.rs`, `src/headers.rs`: models of JSON documents and of header fields, and what is assumed
  of `serde_json` and `http`
- `src/text.rs`, `src/clock.rs`: strings, decimal numbers, the wall clock
- `src/config.rs`, `src/cli.rs`, `src/error/`: settings, the choice of the port, errors
- `src/proxy/request.rs`: the decision on a request, and the request that goes upstream
- `src/proxy/exchange.rs`: what to do at each thing that happens in the exchange with the upstream
- `src/proxy/sse.rs`: framing of the event stream
- `src/proxy/completion.rs`: collecting a streamed answer
- `src/proxy/models.rs`: the list of models
- `app/`: the server
- `tests/`: tests of the library
