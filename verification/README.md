# rh

A harness for tool-using agents, written in Verus: sessions with a durable log, an agent loop that
works on the log alone, tools behind one trait, sub-agents, skills, tool servers, plugins, and the
decisions of a web and of a terminal front end. The library computes; it never reads a file, opens a
connection or looks at the clock. What has to be done outside it hands out as plain values (a file to
write, a request to send, a tool to call), and what came of it is handed back in.

## Layout

- `src/` is the verified library.
  - `text`, `bytes`, `path`, `order`, `table`, `keyed`, `duplicate`, `json`, `codec`, `pattern`: the
    ground, each with the function on sequences that it computes.
  - `host`: the composition context, with typed services, subscriptions and their teardown.
  - `session`: the log and its projection to what a model sees, the record, the store.
  - `tool`, `tools`: the tool trait, the registry, and the built-in tools.
  - `agent`: the turn as a machine, the grammar of its log, the builder.
  - `providers`: the wire form of requests, the reader of event streams, the hub of providers.
  - `mcp`, `plugins`: tools from servers and from libraries.
  - `harness`: the services of the harness, mounting and unloading.
  - `web`, `cli`, `site`: what the front ends answer and show.
- `tests/` runs the library on concrete values, with the outside crates linked.
- `app/` is the program around the library: the command line, processes, sockets, files.

## What is proved

Every public function states what it returns or changes. Laws that span several functions stand next
to them as public proof functions. Among them:

- what a model is shown is what the log records, in order, and a tool's output reaches the model;
- every run of a turn writes a log of the turn grammar;
- an event stream is read the same however it is cut into pieces;
- hubs, catalogs and lists of servers are read back from their files as they were, and so are sessions
  whose JSON values are nested at most 122 levels deep;
- a teardown unwinds its own registration: what has replaced it since stays, and so does all else;
- a new session never takes the identity of another;
- a search that was not cut off has found every match, once, and none in hidden or skipped places;
- in a session that plans, the tools run no command and write no file.

## What is trusted

`serde_json` (reading and writing JSON), `regex` and `glob` (matching) and a few functions of the
standard library are called through small wrappers in `json`, `pattern`, `plugins`, `text` and `host`.
Each says in its doc comment what is claimed of the outside function. The claims on `serde_json` are
made of it with its features `raw_value` and `arbitrary_precision` off.
