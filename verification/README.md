# nitro_agent

A Telegram bridge to a local coding engine: messages become prompts, the
engine's stream-json output is streamed back as edited Telegram messages,
and slash commands manage sessions, workspaces and tool permissions.

* `src/` is the verified library (Verus). `text` holds the string model
  (trimming, UTF-8 byte lengths, decimal and HTML escaping, search);
  `nitro` the configuration, routing of group messages, Telegram
  formatting and splitting, menus and engine command line; `telecode` the
  command parser and replies, the stream-json decoder, the rolling output
  buffer and the decisions of the loop that follows a running engine.
  Contracts are stated over `Seq<char>` views; laws are public proof
  functions named `law_*`.
* `app/` is the program around it: environment and files, SQLite, the
  Telegram polling loop, per-thread workers and the engine process.
* `tests/` runs the library on concrete values.
