# umst_core

The verified core of the UMST material-state prototype, written in Verus.

`src/` is the library; every function in it carries a contract that Verus proves:

- `constitution` — the layer hierarchy (L0 thermodynamics, L2 substrate,
  L4.5 axiological veto), the functor that admits a transition only when every
  layer passes, and the hard L0 condition of the graded score.
- `complexity` — task levels T1–T6, the scope of each proposing model, the
  verdict assembled from violated constraints, and the per-cell tally.
- `multishot` — the feedback protocol of the multi-round model dialogue, the
  check summary, the JSON span of a reply, the dialogue session and the prompt
  sheet.
- `imaging` — the pixel heuristics of the label reader (date, tape, bag, mix
  sheet, scale display).
- `encoding`, `http` — base64 uploads and the server's request routing,
  header reading and reply framing.
- `hardware`, `data`, `datasets`, `ecs` — energy counter readings, proxy
  names and columns, dataset calibration profiles, entity numbering.
- `text` — decimal rendering and parsing, trimming and substring search,
  stated over character sequences.

`app/` holds what the library cannot: floating-point physics and scores,
randomised data sources, file, process and socket I/O, and the benchmark
runners. `tests/` exercises the library on concrete values.
