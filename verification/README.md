# Agent MCP

A desktop server that lets MCP clients hand coding tasks to an agent on the local machine.
It listens on `http://127.0.0.1:8765/mcp` unless another port is configured, runs each task
as a job, and keeps a log, the sessions that can be resumed, and a count of the tokens used.

## Layout

- `src/` is the library: everything that decides or computes, with its contracts and proofs.
  - `config`, `names`: the configuration, and the names of the assistant and its models.
  - `stream`, `agent_loop`, `tools` and the module of requests: what is sent, what comes back, and the tools that a model calls.
  - `agent_bridge`, `agent_runtime`, `pending_table`: the bridge to the Agent SDK.
  - `jobs`, `job_table`, `sessions`, `mcp`: jobs, sessions, and what clients are answered.
  - `logs`, `token_usage`, `event_queue`, `throttle`: the log, the usage, and how often listeners are told.
  - `server`, `tray`, `commands`, `state`: the server's own state and the window's commands.
  - `json`, `counts`, `text`, `order`, `clock`: what the rest is built on.
- `tests/` runs the library with the crates that it calls.
- `app/` is the application around it: files, processes, HTTP, the window and the tray.

## What is trusted

The library believes the documented behaviour of a few functions of `serde_json`, `dashmap`,
`crossbeam-queue`, `chrono`, `uuid` and the standard library. Each of them stands behind one
small item whose comment says what is claimed.

## The name of the assistant

The assistant that does the work has a name, which stands in what clients are answered, in
what the model is told, and, in lower case, at the start of the names of its models. The
library takes the name as an argument. The application takes it from the product's name,
which is the assistant's followed by `MCP`; the name of its configuration directory and of
the variable that says which program runs the bridge are made of it too.
