# codegod

The text-processing core of CodeGod, a chat bot that runs code posted in
fenced code blocks on online compilers (rextester, tio.run, wandbox), with
its behaviour stated in Verus contracts and proved.

- `src/text.rs` — a character-sequence model of `trim`, `lines`, `split`,
  `split_whitespace` and searching, with verified implementations.
- `src/numeric.rs` — decimal numerals (`parse::<usize>`, `to_string`).
- `src/utils/parser.rs` — message arguments (via `shlex`), code blocks and
  their language tags; laws on fenced messages.
- `src/compilers/` — the language/alias/argument tables of each compiler,
  the requests they are sent (tio's request string and zlib/gzip handling
  through `flate2`) and the shapes of their replies.
- `src/events/code_executor.rs` — the decisions around a run: which
  reactions start it (a server's stored trigger emoji, or ▶ by default),
  block choice (the first block when no answer comes), settings, compiler and language
  resolution, reading each compiler's reply, the output description and
  how it is delivered, and the notices posted when a run cannot go on.
- `src/events/run.rs` — the course of a run as a machine: from state and
  event to the next state and the action the bot carries out (fetch the
  message, ask, mark as running, send the code, post the result, offer the
  wastebasket, or stop with a notice).
- `src/database/trigger_emoji.rs` — how a server's trigger emoji is written.
- `app/` — the bot itself: Discord (serenity), HTTP (reqwest), MongoDB and
  configuration loading around the library.
