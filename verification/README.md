# utah_kernel

The subsystems of the Utah-OS kernel as a verified Verus library, with the kernel glue
around it.

- `src/` — the library, every function verified against its contract:
  - `hfs` — content-addressed blob store keyed by DJB2 signatures;
  - `zero_point_net` — resonance-tuned intent queue and the simulated ether;
  - `chrono_scheduler` — action history and next-intent prediction;
  - `thermodynamic_virtualizer` — idle-harvest telemetry;
  - `delta_wave_patch` — XOR image deltas committed to the HFS;
  - `ghost_daemon` — suspend/resume of guest state, snapshot freeze, void flags;
  - `kernel_config`, `utah_os` — master configuration and boot;
  - `display` — EDID decoding, the stitched multi-head topology, window pinning and borders;
  - `ui` — the Glass-Forge canvas: a pixel model, primitives, themes and the vibe-code parser;
  - `system_calls` — the decisions behind the WebAssembly host calls.
- `tests/` — scenario tests of the library.
- `app/` — the kernel around the library: heap, VGA console, global state behind spin
  locks, CPU halt paths and the wasmi runtime that registers the host calls.
