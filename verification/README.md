# gateway_admission

Decisions of a model gateway, written and proved in Verus.

- `cli`: strict start-up flags. An unknown flag, a missing value or an
  unparsable value is an error, never a fallback to a default.
- `pd_admission`: admission of disaggregated dispatches, bounded by the decode
  engine's running window, as a state machine over clock and load readings.
- `classify`: classification of a worker as local or external, as a state
  machine over the answers of probes; `json` holds the documents it reads.
- `text`: operations on string slices, specified over character sequences.
- `cli_laws`, `pd_admission_laws`, `classify_laws`: what holds of each module as
  a whole.

`app/` is ordinary Rust around the library: it panics on rejected flags, keeps
the latched wait, reads the clock, makes the probes and implements the workflow
engine's step.
