# plato-agent

A local agent runtime: a language model answers questions about a workspace and may use a few
tools in it, each call under a policy. Every run is an event ledger from which it can be played
again. A daemon serves a workspace over a Unix socket to a command line, a terminal client, a
desktop window and two chat gateways.

- `src/` is the library. Its contracts are proved by Verus: the run loop and its policy gates, the
  plans and results of the tools, the session store, recorders and replay, the daemon's protocol and
  state, the gateways, and what the terminal client shows.
- `app/` holds the programs around it, with all input and output: `plato`, `plato-agentd`,
  `plato-tui`, `plato-gateway-telegram`, `plato-gateway-discord` and `plato-desktop`. Which one runs
  is told by the name the executable is started under.
- `tests/` runs the library on concrete values.

The library makes no input or output itself. Where a run alternates with the outside world, a state
machine says what is to be done next and is told what came of it (`run::RunMachine`,
`gateway::RunWatch`, `discord_gateway::DiscordConnection`, `daemon::handlers::DaemonRuntime`).

What is believed without proof is marked in the source with the outside function it speaks of:
`serde_json`, `platonic-core`, `sha2`, `url`, `ratatui`, and a few functions of the standard library.
