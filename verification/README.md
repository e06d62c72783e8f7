# tokensmith

A local LLM orchestrator: it profiles the machine, recommends a model, quantization,
context size and thread count that fit in memory, downloads models, runs `llama-server`
behind an OpenAI-compatible API, and watches and stops the server.

## Layout

- `src/` — the library, verified with Verus. Every function carries a contract over
  mathematical models (`Seq`, `int`, views of the data types):
  - `memory`, `heuristics`, `selector` — the memory budget, the footprint estimate, the
    choice of model, quantization and context, and the recommendation;
  - `resolve` — falling back to models already on disk when the recommended one is not;
  - `registry` — the model registry and its validation;
  - `paths`, `state`, `commands`, `doctor`, `logging` — file layout, saved server state and
    the decisions behind each command;
  - `server` — the answers the API gives when no runtime does, error bodies and streaming;
  - `profiler` — reading `vm_stat` output;
  - `text`, `units` — string scanning, integer parsing and printing, GiB formatting;
  - `laws` — properties that span several functions, each a proof function.
- `tests/` — tests of the library on concrete values.
- `app/` — the program: command line, files, processes, sysinfo, the HTTP server and
  client, and the floating-point display of samples.
