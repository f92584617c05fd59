# heimwatch

Per-application system metrics for Linux: network traffic, CPU time, disk
I/O, memory, GPU usage, power state and window focus time.

- `src/` is the library, verified with Verus: a model of the kernel probes'
  per-process map updates (`probe`; the probes that run are a separately
  built eBPF object), the per-interval deltas and per-application
  aggregation of the collectors (`apps`, `network`, `disk`, `cpu`, `memory`,
  `gpu`), power-supply and route-table decisions (`power`), focus sessions
  (`focus`), parsing of `/proc` and `/sys` text (`text`, `process`,
  `gpu::fdinfo`, `gpu::backend`), logging and snapshot options (`logging`,
  `snapshot`) and the daemon's main loop (`daemon`). Each public function
  states its result in its contract; the `law_*` proof functions state what
  holds across calls.
- `app/` is the program around it: the command line, loading and reading the
  eBPF maps, reading `/proc` and `/sys`, the Wayland and D-Bus listeners,
  NVML, floating-point formatting and printing.
- `tests/` runs the library on concrete inputs.
