# ring_agent

The core of a coding agent, verified with Verus: the exact-replacement file
edit, the stored provider credentials, the session index, the provider
catalog, user agents and header lists, the Gemini request/answer/stream
handling, and the line protocol through which a host embeds the agent.

- `src/` is the verified library. Each public function states its result in
  its `ensures`; functions named `law_*` are proved properties that relate
  several operations.
- `app/` holds what Verus does not see: file and network I/O, the async
  loops, and the serde/HTTP glue around the library.
- `tests/` runs the library on concrete inputs.
