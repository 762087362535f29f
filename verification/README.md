# dormantd

The daemon that turns displays off when nobody is there: its decisions, verified
with Verus, and the plumbing that carries them out.

- `src/` holds the decisions. Each function states in its contract what it
  decides; public proof functions named `law_*` state what holds across functions.
  - `boot_guard`, `boot`: crash loops, the last-known-good config, what a boot starts.
  - `config`, `assembly`, `generation`, `app`: from a config to a running generation.
  - `reload`, `restore`, `router`, `revision`, `lkg`, `snapshot`: replacing a
    generation without losing messages or leaving a panel dark.
  - `audio_policy`, `audio_source`: what counts as playback or as a call.
  - `coordination_claim`, `claim_runtime`, `claim_probe`, `claim_types`: claiming a
    shared display from another instance.
  - `clock`, `seqs`, `tables`, `text`: what the others are built from.
- `app/` performs what the library asks for: files, processes, sockets, tasks. It
  reaches the sibling crates of the workspace through the traits of
  `app/services.rs`, `app/claims.rs` and `app/transport.rs`.
- `tests/` runs the library on concrete values.

Times are nanoseconds on a monotonic clock, or since the epoch where a name says so.
