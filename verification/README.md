# nvoc

The decision logic of two NVIDIA GPU tools — `nvoc-cli`, a command-line
front end for GPU clock, fan, power and display control, and a CUDA stress
tester with on-line result verification — as a library whose behaviour is
stated in contracts and proved with Verus.

## Layout

- `src/` — the verified library.
  - `text` — character-level helpers with specifications: trimming, case,
    splitting, integer parsing and rendering, joining.
  - `cli` — the command table (names, help, arity, options, positional
    arguments), command lookup, and validation of a parsed invocation.
  - `values` — parsing of the argument values: units, clock domains, fan
    targets, booleans, API-restriction names.
  - `execution` — which backend serves which GPU, the `auto` plan, fallback
    between backends, and the summary of per-target errors.
  - `labels` — text for throttle reasons, performance limits and field
    labels of the human-readable output.
  - `edid` — hex input of EDID blocks and interpretation of EDID fields.
  - `vbios` — the BIT signature and token table of a VBIOS image and its
    sub-tables.
  - `stress` — precisions, kernel types, stream modes and their parsing;
    device capability checks; work estimates.
  - `overrides` — per-kernel parameter overrides: merging, resolution,
    filtering by device.
  - `settings` — layering of config-file settings under command-line ones,
    including the `[verify]` section, and the Vulkan engine parameters.
  - `plan` — the pre-run checks on precisions and kernel types.
  - `devices` — PCI addresses and UUIDs in text form, and choosing a CUDA
    device by sorted index, address or UUID.
  - `golden` — golden result files and bit-exact comparison.
  - `verify` — the on-GPU verification engine's host side: reference
    values, detector accounting, verdicts and the self-test report.
  - `srv` — the loopback HTTP exchange with the fan-control service.
  - `thermal` — the thermal session's setup and teardown decisions.
- `tests/` — tests of the library.
- `app/` — the edges that are not verified: clap argument handling, TOML
  config files, file I/O, the HTTP transport and process control of the
  thermal session, JSON rendering, and the parts that compute with
  floating-point values.
