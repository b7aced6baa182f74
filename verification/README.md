# llm_gateway

An HTTP gateway that accepts chat requests in the OpenAI, Anthropic or Ollama format,
converts them to one canonical request, forwards them to an upstream provider, and answers
in the output format configured for that provider.

The library under `src/` holds the gateway's logic, verified with Verus:

- `formats` (with `formats/openai.rs`, `formats/anthropic.rs`, `formats/ollama.rs`): the
  canonical request and response, the per-format conversions, request-format detection and
  the registry of interpreters and formatters.
- `protocols`: the protocol layer's canonical types and conversions.
- `models`: OpenAI and Anthropic wire types, request-source detection, and conversions
  between the two formats.
- `config`: the configuration, and how it is read from environment variables.
- `middleware`: the API key check.
- `proxy`: provider selection, the upstream request, and the answer to the client.
- `headers`, `json`, `text`, `views`, `assoc`: plain models of request headers, JSON values
  and strings, and the views that the contracts are stated over.

Sampling parameters that the formats carry as `f32` are held by their IEEE-754 bit patterns.

Each provider may name the request format its clients send (`input`); otherwise the format
is detected from the request, with the OpenAI format as the default that is tried last.
Without a configured gateway key (`api-key`, `PROXY_API_KEY`) the gateway is open.

Formats of your own are registered beside the built-in ones: implement
`formats::CustomInterpreter` (recognise and decode requests) or `formats::CustomFormatter`
(encode responses) for a type, and register a `'static` reference to it as
`Interpreter::Custom` or `Formatter::Custom`. `tests/custom_format_tests.rs` shows one.

`app/` is the server around the library: JSON and TOML decoding and encoding with serde,
the axum routes and handlers, the reqwest client, and `main`.
