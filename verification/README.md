# llm-manager

A memory-aware manager for local LLM runtimes (llama.cpp, Ollama, vLLM, MLC-LLM),
with KV-cache sizing for GGUF models.

The library in `src/` is written in Verus: every function carries a contract that
Verus proves. It holds the logic of the program:

- `backends/`: the command lines of the runtimes;
- `profile.rs`, `ollama_config.rs`: profile files and Ollama Modelfiles;
- `gguf.rs`: GGUF metadata, parsed from the bytes of a file;
- `memory_monitor.rs`, `memory_pressure.rs`: memory pressure levels, the monitor's
  settings and its bounded history;
- `adjust.rs`: how a run reacts to memory pressure (lowering settings on warning,
  restoring them on normal, aborting on critical), with its laws;
- `commands/`: the arguments of each command and what it computes and prints;
- `text.rs`, `json.rs`, `cli.rs`: text, JSON and command-line helpers.

`app/` is the program around the library: process spawning, threads, files,
signals, system memory queries, and the floating-point formatting of sizes and
charts.

`tests/` runs the library on concrete inputs.
