# cairnlink

A verified decoder for an offline disaster-shelter exchange format: framed streams and
`CIRN` bundles carrying shelter capacity, route access, stock ledgers, fragmentary radio
packets, report templates, codec tiles, telemetry and small automation scripts, all
reconciled into one session state and scored by a risk analysis.

Every module under `src/` states its behaviour as a mathematical model (spec functions over
`Seq`, `int` and views of the data types) and Verus proves the code against it.

- `cursor`, `checksum`, `frame`: byte reading, CRC-16 and folded sums, frame parsing.
- `dictionary`, `route`, `inventory`, `fragment`, `report`, `codec`, `journal`, `script`:
  the stages; each runs a small byte-coded program (`ops::run_ops`) on its own state.
- `manifest`, `text`, `textops`: the text manifest; `text` holds the calls into std whose
  results Verus takes on trust (`String::from_utf8_lossy`, `String::push`).
- `session`, `bundle`, `analyzer`: the session that frames and bundles build, and its analysis.
- `arena`: owned copies of byte runs and slices that later stages read back.
- Entry points whose integer operations could overflow require that they do not; each has a
  `_checked` twin (`decode_stream_checked`, `decode_bundle_checked`, `apply_frame_checked`,
  `finalize_checked`, `run_script_checked`, ...) that decides this at run time and returns
  an `arithmetic overflow` error instead.
- `laws`: properties that span operations (bounds, idempotence, read-back, growth).

`app/` holds what Verus does not see: a displayable error type and the fuzzing entry points.
