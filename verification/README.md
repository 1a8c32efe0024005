# zeroclaw_tools

Three tools for an agent, as a library that Verus verifies:

- `apply_patch` changes several files by one structured patch,
- `process` starts background processes and looks after their sessions,
- `child_session` sets delegate agents to work and tells what became of them.

## Layout

- `src/text`: characters, lines, words, decimal numbers and summaries.
- `src/host`: JSON objects, moments, and what every tool is handed and answers.
- `src/apply_patch`: the grammar of patches, hunks, the checks of paths, and the
  order in which a patch is carried out.
- `src/process_sessions`: bounded output, sessions, their registry, the clean-up
  of old sessions and the shutdown.
- `src/process` and `src/child_session`: the two session tools.
- `app`: files, processes, tasks and locks around the library.
- `tests`: scenarios on concrete values.

The library does no input or output. What it needs done it asks for: a call or a
run offers `request()`, the program around it does what is asked, and hands the
answer to `advance()`. Each such machine has a spec function that says what comes
next for every state and every answer, and the laws speak of all the ways a run
can go: `laws`, `safety`, `reversal` and `round_trip` in `apply_patch`, `laws`,
`cleanup_laws` and `shutdown_laws` in `process_sessions`, and `laws` in the two
session tools.

Calls may overlap. Whoever kills a process keeps the others off until that is
over, and a session that is forgotten is kept for those who are at work on it
until it is swept out.

JSON, RFC 3339 dates and lossy UTF-8 decoding come from `serde_json`, `chrono`
and the standard library. What is trusted of them stands in the contracts of the
functions marked `external_body` in `host::json`, `host::time` and
`process_sessions::output`, and of `String::push` in `text::chars`.
