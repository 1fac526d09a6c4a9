# llmnet

A verified library for orchestrating LLM pipelines: composition files, routing
and hook decisions, runner command lines, the cluster controller's placement and
bookkeeping, and the command line's formatting.

- `src/` is the library, written in Verus: every function carries its contract and
  is proved against it. Where work needs the clock, the network, processes or the
  environment, the library decides from values that its caller hands in.
- `tests/` runs the library on concrete values.
- `app/` is the `llmnet` command line around the library: argument parsing, the
  context file, and HTTP calls to the control plane.
