# myb

Keyword-triggered volume control for online meetings, as a Verus-verified
library: a meeting's volume stays down until someone says a configured
keyword, then policies decide how loud and for how long.

- `src/` — the verified library:
  - `ieee` — exact IEEE 754 comparisons on bit patterns (scores, thresholds,
    volumes travel as binary64/binary32 bit patterns).
  - `text` — Unicode white space, trimming, exact string search and equality.
  - `policy` — policy data, validation rules, keyword display labels.
  - `engine` — list-order matching, thresholds, debounce and renewal.
  - `decision` — the engine's volume decisions.
  - `event_log` — the in-memory trigger event log (chrono decides which
    timestamps are representable).
  - `session` — the focus session's state machine.
  - `kws`, `model`, `vocab` — spotter bookkeeping, model file layout,
    keyword vocabularies.
  - `devices`, `server` — platform back ends and control-service replies.
- `app/` — the command-line driver: policy files (serde_yaml), the back-end
  interfaces and mocks, the sherpa-onnx spotter and the session loop.
- `tests/` — behaviour tests of the library.
