# agent_bridge

The logic between agents and the outside world, verified with Verus.

- `src/openai/` and `src/deepseek/`: clients of model providers. They build
  request bodies and decode streamed replies, chunk by chunk.
- `src/acp/`: a server of the Agent Client Protocol. It keeps track of sessions,
  turns, tool servers and forks; each request is a sequence of steps, and the
  caller does the I/O between them.
- `src/custom_headers.rs`, `src/http.rs`, `src/sse.rs`, `src/json.rs`: what they
  share.
- `app/`: the I/O around the library: HTTP, child processes, the protocol's
  transports. The program that embeds it supplies its agents, its store of
  sessions and its message formats through the traits in `app/acp/host.rs`,
  `app/openai.rs` and `app/deepseek.rs`.

Contracts speak of mathematical views (`JsonView`, `StreamView`,
`RegistryView`). What holds across calls is stated as public proof functions
whose names begin with `law_`, beside the functions or in the `laws` modules.
