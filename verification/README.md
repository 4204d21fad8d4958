# track-sweep

A command-line tool for sorting an Apple Music library on macOS: it walks the
library from the oldest track to the newest (by date added), plays each track,
and lets you dislike, favourite, unfavourite, keep or skip ahead, resuming
where you left off on the next run.

## Layout

- `src/` — the library, verified with Verus:
  - `order.rs`, `cursor_ordering.rs`, `provider.rs`: the library order
    (date added, then id; undated tracks last), its laws, a verified merge
    sort, and where a sweep resumes after the saved progress.
  - `sweep.rs`: the sweep as a state machine — what each answer does to the
    position, the saved progress, the pending-delete list and the decisions
    log — and the lines it prints.
  - `input.rs`: what a key means at each prompt, and the key help line.
  - `decisions.rs`, `disliked.rs`, `progress.rs`, `index_cache.rs`: the
    records the tool keeps (CSV rows, the pending-delete list, the progress
    entry, file names).
  - `apple_music.rs`: the JavaScript for Automation scripts sent to Music.app,
    with escaped ids, and the chunking of removals.
  - `style.rs`, `text.rs`: coloured text through crossterm, and string helpers.
- `app/` — the program around it: terminal input, `osascript`, JSON files and
  the loop that plays tracks and carries out the sweep's decisions.
- `tests/` — tests of the library.
