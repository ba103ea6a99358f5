# fp

The logic of the Fiberplane command line tool, verified with Verus.

`src/` is the library. Every function in it carries a contract that Verus
proves, except the small wrappers around the outside crates (regex, grok,
serde_json, time, url, memchr, termwiz, qstring, sha2/hex) and a few std
functions, whose contracts are stated from those crates' documentation and
sources.

- `logs`, `fields`, `timestamps`: command output parsed into log records,
  grouped by timestamp or as one list of events (JSON, nginx and GitHub
  Actions lines).
- `cell_writer`: buffered command output turned into a log or code cell,
  later output appended to it.
- `terminal`, `render`, `ansi`, `shell`: recording a shell session — the
  prompt markers extracted from the byte stream, the text a recording keeps,
  how each shell is started and set up.
- `notebook`: a notebook in memory and the changes applied to it.
- `crawl`: crawling linked notebooks into Markdown files.
- `urls`, `http`, `update`, `config`, `interactive`, `arguments`: slugs,
  notebook URLs and the realtime websocket address, the login and Prometheus
  redirects, the update flow, profiles, prompts and small argument parsers.
- `templates`: template parameters, converted images, and the arguments of
  a template expansion (a JSON object or `key=value` pairs).
- `rows`, `output`, `labels`, `snippets`, `message`,
  `manifest`, `models`, `create`, `runtime`, `version`, `stress_test`,
  `utils`: table rows and the other records and formatters of the CLI;
  `stress_test` also holds the realtime worker's retry and authentication
  decisions.

Each module states its laws as public proof functions named `law_*`.

`app/` is the command line front end: argument handling, files, the
terminal and the network. `tests/` exercises the library on concrete values.
