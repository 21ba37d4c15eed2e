# syswatch

A single-host system diagnostics TUI. The crate is split in two:

- `src/` — the library, verified with Verus: tab and key handling of the
  UI (`app`), the user configuration and its repair (`config`), the
  settings popup model (`settings`, `theme`), parsers for the battery,
  thermal and fan reports of macOS and Linux (`power`), GPU discovery
  (`gpu`), the integer insight rules and their ranking (`insights`), the
  process table window (`procs`), the sampler's back-off (`sampler`) and
  block-I/O totals (`diskio`), on top of verified text and number helpers
  (`text`, `num`).
- `app/` — the program around it: command line, config file I/O, the
  terminal loop and drawing, running the platform commands and reading
  `/sys`, and the rules that weigh floating-point readings.

Each public function of the library states in its contract what it
returns; the laws that span functions (undoing a Tab with BackTab,
cycling settings round, validation being idempotent, the insight
ranking, the refresh window of cached readings) are proof functions
named `lemma_*`.
