# zcode_cli

A verified core for a command-line client of the ZCode agent. The agent runs in a
runtime of its own, a child process that speaks JSON-RPC line by line; the client
is a single prompt, a line prompt, a terminal interface, a daemon that keeps
runtimes warm between commands, and a council of agents.

`src/` holds what is decided and computed, with contracts that Verus proves:

- `json`, `text`, `toml_text`, `paths`: values, texts and file names; JSON and
  TOML, read and written.
- `rpc`, `server_requests`, `runtime`: the messages of the runtime, its error
  output, the outcome of a call.
- `config`, `startup`, `doctor`, `notices`: settings, arguments, the diagnosis and
  the texts that are shown.
- `session`: the calls on a session, what is read from the answers, the wait for a
  turn, the local record, the export.
- `daemon`, `daemon_client`: the protocol between a command and the daemon, who is
  let in, which way a command takes, who may start a daemon.
- `commands`: the line prompt, the terminal interface as a state with its keys,
  commands, reports and turns, the poller, the comparison of workspaces, and the
  commands without an interface.
- `council`: the rounds of a council, its prompts and its memory.

`app/` is the program around it: processes, sockets, files, the clock, the screen.
`tests/` runs the library with the real crates.

Properties of the whole, such as that a merge of two transcripts settles, that only
a greeting with the daemon's token is let in, or that Enter loses no text, are
public proof functions whose names begin with `law_`.
