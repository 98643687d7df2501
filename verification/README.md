# kiro_rs

A web search tool for a messages API, on top of an MCP search service, together with the simulated
cache usage that clients of such an API expect. The logic is a library verified with Verus.

- `src/` is the library. `websearch` holds the course of a search request (`flow`), from what the
  user wants searched (`query`) and what the model is asked (`prompt`) over the MCP request (`mcp`)
  to the reply (`reply` is its model, `response` builds it). `cache_sim` splits the input tokens of
  a request into fresh and cached ones. `endpoint` holds what the endpoints of the upstream service
  differ in. `json`, `sse`, `text`, `clock` and `random` are what these stand on.
- `tests/` runs the library.
- `app/` is the service around it: HTTP, files, locks, serialisation, and the ratios of the cache
  simulation, which are floating-point numbers.

What is proved is stated in the contracts of the functions, and in the proof functions whose names
begin with `law_`. Time and random numbers come from `chrono` and `fastrand`; the functions that
call them are marked `external_body`, and say what is taken from those crates without proof.
