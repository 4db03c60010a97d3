# sumo

A command-line client for Sumo Logic log searches, built around a library
verified with Verus.

The library (`src/`) makes the decisions and computes the texts. Its
contracts state what each function returns; where the answer rests on the
outside world (the clock, the OS keychain, the HTTP replies), a function
takes that reading as an argument and its contract is exact for each value
of it. `src/laws.rs` proves the properties that relate the operations to
one another.

- `text`: characters, decimal numbers, splitting, trimming, string order.
- `json`: the JSON values the API answers with, held as plain values.
- `time`: `now`, relative (`-15m`) and RFC 3339 time arguments, read
  against a clock reading, and the formatting of instants (through
  `chrono`).
- `config`: the configuration file's projects (kept ordered by name), and
  how a command resolves its credentials: command-line flag, then
  environment, then the named project, then the file's defaults.
- `auth`: what `auth login`, `logout`, `use`, `list` and `status` change in
  the file or show.
- `keychain`: secrets in the OS keychain (through `keyring`), and the
  project registry kept there as newline-separated text.
- `output`: field filtering, text tables, CSV (through `csv`), JSON and raw
  lines.
- `search`: aggregate detection, how API answers are judged, the retry
  policy, polling and paging decisions, and the job status report.
- `lifecycle`: one search job as a state machine, from creation to the
  job's deletion, which happens however the run ends.

The program (`app/`) parses the command line, reads and writes the TOML
configuration file, prompts, makes the HTTP calls, sleeps and prints; it
drives the state machine and calls the library for everything else.
